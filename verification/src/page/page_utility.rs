//! Making sub pages and moving pages.
//!
//! When a page moves from `fm` to `dest`, an href that leads into `fm`'s
//! directory or below keeps its relative form, since those pages move
//! along; any other href is rebased onto `dest` from the URL it resolves
//! to at `fm`.
use vstd::prelude::*;
use vstd::string::*;
use vstd::utf8::*;
use crate::jvalue::{self, Json, JVal};
use crate::text;
use crate::url_util;
use super::{Page, update_fails};
use super::page_json::PageJson;
use super::page_json_utility as pju;

verus! {

// ---------------------------------------------------------------------------
// Rebasing hrefs
// ---------------------------------------------------------------------------

/// `fm_href` (relative to `fm_url`) as seen from `to_url`: relative when it
/// can be, otherwise its absolute path; `None` when it does not resolve.
pub open spec fn href_base_switch_spec(fm_url: Seq<char>, fm_href: Seq<char>, to_url: Seq<char>) -> Option<Seq<char>> {
    match url_util::url_join_spec(fm_url, fm_href) {
        Some(u) => Some(
            match url_util::url_relative_spec(to_url, u) {
                Some(v) => v,
                None => url_util::url_path_spec(u),
            },
        ),
        None => None,
    }
}

/// Rebases `fm_href` from `fm_url` to `to_url`.
fn href_base_switch(fm_url: &str, fm_href: &str, to_url: &str) -> (r: Option<String>)
    ensures
        r matches Some(s) ==> href_base_switch_spec(fm_url@, fm_href@, to_url@) == Some(s@),
        r is None ==> href_base_switch_spec(fm_url@, fm_href@, to_url@) is None,
{
    match url_util::join(fm_url, fm_href) {
        Some(href_url) => match url_util::make_relative(to_url, href_url.as_str()) {
            Some(v) => Some(v),
            None => Some(url_util::path(href_url.as_str())),
        },
        None => None,
    }
}

// ---------------------------------------------------------------------------
// Finding hrefs in HTML text
// ---------------------------------------------------------------------------

/// `href=` up to its opening quote, in any case, with white space around.
pub const HREF_PATTERN: &'static str = r#"(?i)\s*href\s*=\s*["']"#;

/// The backslashes that end a text.
pub const ESC_PATTERN: &'static str = r"(\\+)$";

/// The text that the bytes from `a` to `b` of the encoding of `s` encode.
pub open spec fn bytes_text(s: Seq<char>, a: int, b: int) -> Seq<char> {
    decode_utf8(encode_utf8(s).subrange(a, b))
}

/// Whether a text ends in an odd number of backslashes (as the regex
/// crate finds them), which escape what follows.
pub open spec fn escaped_spec(pre: Seq<char>) -> bool {
    match crate::pattern::regex_find_spec(ESC_PATTERN@, pre, 0) {
        Some(m) => (m.1 - m.0) % 2 == 1,
        None => false,
    }
}

/// The first match of `ptn` in `s` from byte `ir` on that is not escaped,
/// as byte offsets into `s`.
pub open spec fn fne_spec(s: Seq<char>, ptn: Seq<char>, ir: int) -> Option<(int, int)>
    decreases encode_utf8(s).len() - ir,
{
    let len = encode_utf8(s).len() as int;
    if ir < 0 || ir >= len {
        None
    } else {
        let crt = bytes_text(s, ir, len);
        match crate::pattern::regex_find_spec(ptn, crt, 0) {
            None => None,
            Some(m) => if escaped_spec(bytes_text(crt, 0, m.0)) {
                if 0 < m.1 && ir + m.1 <= len {
                    fne_spec(s, ptn, ir + m.1)
                } else {
                    None
                }
            } else {
                Some((ir + m.0, ir + m.1))
            },
        }
    }
}

/// The first match of `ptn` in `s` from byte `find_start` on that is not
/// escaped by backslashes, as byte offsets into `s`.
pub open spec fn find_not_escaped_spec(s: Seq<char>, find_start: int, ptn: Seq<char>) -> Option<(int, int)> {
    match fne_spec(bytes_text(s, find_start, encode_utf8(s).len() as int), ptn, 0) {
        Some(m) => Some((find_start + m.0, find_start + m.1)),
        None => None,
    }
}

fn find_not_escaped(str_hole: &str, find_start: usize, ptn: &str) -> (r: Option<(usize, usize)>)
    requires
        find_start <= str_hole.spec_bytes().len(),
        is_char_boundary(str_hole.spec_bytes(), find_start as int),
    ensures
        r matches Some(m) ==> find_not_escaped_spec(str_hole@, find_start as int, ptn@) == Some(
            (m.0 as int, m.1 as int),
        ) && find_start <= m.0 <= m.1 <= str_hole.spec_bytes().len() && is_char_boundary(
            str_hole.spec_bytes(),
            m.0 as int,
        ) && is_char_boundary(str_hole.spec_bytes(), m.1 as int),
        r is None ==> find_not_escaped_spec(str_hole@, find_start as int, ptn@) is None,
{
    let ghost hb = str_hole.spec_bytes();
    let hb_len = str_hole.as_bytes().len();
    assert(hb_len == hb.len());
    let s = text::suffix(str_hole, find_start);
    let ghost sb = s.spec_bytes();
    proof {
        text::lemma_bytes_valid(str_hole@);
        text::lemma_bytes_valid(s@);
        text::lemma_boundary_suffix(hb, find_start as int, 0);
        assert(s@ == bytes_text(str_hole@, find_start as int, hb.len() as int));
    }
    let mut index_rest: usize = 0;
    while index_rest < s.len()
        invariant
            sb == s.spec_bytes(),
            sb == encode_utf8(s@),
            hb == str_hole.spec_bytes(),
            valid_utf8(hb),
            valid_utf8(sb),
            find_start <= hb.len(),
            is_char_boundary(hb, find_start as int),
            sb == hb.subrange(find_start as int, hb.len() as int),
            s@ == bytes_text(str_hole@, find_start as int, hb.len() as int),
            index_rest <= sb.len(),
            hb.len() <= usize::MAX,
            is_char_boundary(sb, index_rest as int),
            fne_spec(s@, ptn@, 0) == fne_spec(s@, ptn@, index_rest as int),
        decreases sb.len() - index_rest,
    {
        let str_crt = text::suffix(s, index_rest);
        proof {
            text::lemma_bytes_valid(str_crt@);
            text::lemma_boundary_suffix(sb, index_rest as int, 0);
            assert(str_crt@ == bytes_text(s@, index_rest as int, sb.len() as int));
        }
        let mat = match crate::pattern::find_at(ptn, str_crt, 0) {
            Some(m) => m,
            None => {
                return None;
            },
        };
        assert(str_crt.spec_bytes().len() == sb.len() - index_rest);
        let pre = text::substr(str_crt, 0, mat.0);
        proof {
            text::lemma_bytes_valid(pre@);
            assert(pre@ == bytes_text(str_crt@, 0, mat.0 as int));
        }
        let escaped = match crate::pattern::find_at(ESC_PATTERN, pre, 0) {
            Some(e) => (e.1 - e.0) % 2 == 1,
            None => false,
        };
        assert(escaped == escaped_spec(pre@));
        if escaped {
            proof {
                text::lemma_boundary_suffix(sb, index_rest as int, mat.1 as int);
            }
            index_rest = index_rest + mat.1;
        } else {
            proof {
                text::lemma_boundary_suffix(sb, index_rest as int, mat.0 as int);
                text::lemma_boundary_suffix(sb, index_rest as int, mat.1 as int);
                text::lemma_boundary_suffix(hb, find_start as int, index_rest + mat.0);
                text::lemma_boundary_suffix(hb, find_start as int, index_rest + mat.1);
            }
            return Some((find_start + index_rest + mat.0, find_start + index_rest + mat.1));
        }
    }
    None
}

/// Where the value of the `href` of the first `<a` at or after byte
/// `find_start` lies (between its quotes), as byte offsets: the first `<a`
/// not escaped, then `href="` or `href='` after it, then the first closing
/// quote not escaped.  (A match that leaves no quote to read gives `None`.)
pub open spec fn href_pos_spec(s: Seq<char>, find_start: int) -> Option<(int, int)> {
    let b = encode_utf8(s);
    match find_not_escaped_spec(s, find_start, "<a"@) {
        None => None,
        Some(a) => match crate::pattern::regex_find_spec(HREF_PATTERN@, bytes_text(s, a.1, b.len() as int), 0) {
            None => None,
            Some(h) => {
                let q1 = a.1 + h.1 - 1;
                if h.1 == 0 || !is_char_boundary(b, q1) {
                    None
                } else {
                    match find_not_escaped_spec(s, a.1 + h.1, bytes_text(s, q1, q1 + 1)) {
                        Some(q2) => Some((q1 + 1, q2.0)),
                        None => None,
                    }
                }
            },
        },
    }
}

fn href_pos(s: &str, find_start: usize) -> (r: Option<(usize, usize)>)
    requires
        find_start <= s.spec_bytes().len(),
        is_char_boundary(s.spec_bytes(), find_start as int),
    ensures
        r matches Some(m) ==> href_pos_spec(s@, find_start as int) == Some((m.0 as int, m.1 as int))
            && 1 <= m.0 <= m.1 <= s.spec_bytes().len() && find_start < m.0 && find_start < m.1
            && is_char_boundary(s.spec_bytes(), m.0 - 1)
            && is_char_boundary(s.spec_bytes(), m.0 as int)
            && is_char_boundary(s.spec_bytes(), m.1 as int),
        r is None ==> href_pos_spec(s@, find_start as int) is None,
{
    let ghost b = s.spec_bytes();
    let b_len = s.as_bytes().len();
    assert(b_len == b.len());
    proof {
        text::lemma_bytes_valid(s@);
    }
    let (_a_start, a_end) = match find_not_escaped(s, find_start, "<a") {
        Some(v) => v,
        None => return None,
    };
    let rest = text::suffix(s, a_end);
    proof {
        text::lemma_bytes_valid(rest@);
        assert(rest@ == bytes_text(s@, a_end as int, b.len() as int));
    }
    assert(rest.spec_bytes().len() == b.len() - a_end);
    let href_mat = match crate::pattern::find_at(HREF_PATTERN, rest, 0) {
        Some(v) => v,
        None => return None,
    };
    if href_mat.1 == 0 {
        return None;
    }
    let q1_start = a_end + href_mat.1 - 1;
    if !s.is_char_boundary(q1_start) {
        return None;
    }
    proof {
        text::lemma_boundary_suffix(b, a_end as int, href_mat.1 as int);
    }
    let quote = text::substr(s, q1_start, q1_start + 1);
    proof {
        text::lemma_bytes_valid(quote@);
        assert(quote@ == bytes_text(s@, q1_start as int, q1_start + 1));
    }
    let index = a_end + href_mat.1;
    let (q2_start, _q2_end) = match find_not_escaped(s, index, quote) {
        Some(v) => v,
        None => return None,
    };
    Some((q1_start + 1, q2_start))
}

// ---------------------------------------------------------------------------
// Converting hrefs for a moved page
// ---------------------------------------------------------------------------

/// `href` (relative to `fm_url`) for the page moved to `dest_url`: an href
/// that leads into `fm_url`'s directory or below keeps its form relative
/// to `fm_url`; any other is rebased to `dest_url`; a target that no
/// relative href reaches (another scheme, host or port) is kept as the
/// absolute URL it names.
pub open spec fn href_convert_spec(fm_url: Seq<char>, href: Seq<char>, dest_url: Seq<char>) -> Result<Seq<char>, Seq<char>> {
    match url_util::url_join_spec(fm_url, href) {
        None => Err("page_move2_href_convert fm_page.url.join(href) failed"@),
        Some(u) => match url_util::url_relative_spec(fm_url, u) {
            None => Ok(u),
            Some(rel) => if text::starts_with_spec(rel, "../"@) {
                match href_base_switch_spec(fm_url, href, dest_url) {
                    Some(v) => Ok(v),
                    None => Err("page_move2_href_convert failed to href_base_switch"@),
                }
            } else {
                Ok(rel)
            },
        },
    }
}

/// How a moved page's hrefs are converted: one that leads into the moved
/// page's directory or below keeps its form, the same relative href seen
/// from the moved page (those pages move along); any other is rebased onto
/// the destination, relative to it where it can be, else as its path; a
/// target on another scheme, host or port is kept as its absolute URL.
pub proof fn law_href_convert(fm_url: Seq<char>, href: Seq<char>, dest_url: Seq<char>, u: Seq<char>, rel: Seq<char>)
    requires
        url_util::url_join_spec(fm_url, href) == Some(u),
    ensures
        url_util::url_relative_spec(fm_url, u) is None ==> href_convert_spec(fm_url, href, dest_url) == Ok::<
            Seq<char>,
            Seq<char>,
        >(u),
        url_util::url_relative_spec(fm_url, u) == Some(rel) && !text::starts_with_spec(rel, "../"@)
            ==> href_convert_spec(fm_url, href, dest_url) == Ok::<
            Seq<char>,
            Seq<char>,
        >(rel),
        url_util::url_relative_spec(fm_url, u) == Some(rel) && text::starts_with_spec(rel, "../"@)
            ==> href_convert_spec(fm_url, href, dest_url) == Ok::<
            Seq<char>,
            Seq<char>,
        >(
            match url_util::url_relative_spec(dest_url, u) {
                Some(v) => v,
                None => url_util::url_path_spec(u),
            },
        ),
{
}

/// Converts an href of the page moved from `fm_page` to `dest_page`.
pub fn page_move2_href_convert(fm_page: &Page, href: &str, dest_page: &Page) -> (r: Result<String, String>)
    ensures
        r matches Ok(v) ==> href_convert_spec(fm_page.url@, href@, dest_page.url@) == Ok::<Seq<char>, Seq<char>>(v@),
        r matches Err(e) ==> href_convert_spec(fm_page.url@, href@, dest_page.url@) == Err::<Seq<char>, Seq<char>>(e@),
{
    let fm_href_url = match url_util::join(fm_page.url.as_str(), href) {
        Some(v) => v,
        None => return Err(String::from_str("page_move2_href_convert fm_page.url.join(href) failed")),
    };
    let href_relative = match url_util::make_relative(fm_page.url.as_str(), fm_href_url.as_str()) {
        Some(v) => v,
        None => return Ok(fm_href_url),
    };
    if text::starts_with(href_relative.as_str(), "../") {
        return match href_base_switch(fm_page.url.as_str(), href, dest_page.url.as_str()) {
            Some(v) => Ok(v),
            None => Err(String::from_str("page_move2_href_convert failed to href_base_switch")),
        };
    }
    Ok(href_relative)
}

/// The text with the bytes from `start` to `end` (an href value, between
/// its quotes) replaced by `v`.
pub open spec fn splice(content: Seq<char>, start: int, end: int, v: Seq<char>) -> Seq<char> {
    bytes_text(content, 0, start) + v + bytes_text(content, end, encode_utf8(content).len() as int)
}

/// The hrefs of the `<a>` elements in a content text converted for the
/// moved page, in turn, searching on from the byte `index`: a local href
/// (`#...`) is left alone and the search goes on after it; any other is
/// converted (`href_convert_spec`), its value replaced between its quotes,
/// and the search goes on after the new value.  The search stops at the
/// end of the text, or where the offset falls inside a character.
pub open spec fn m2_content_convert_spec(fm_url: Seq<char>, dest_url: Seq<char>, content: Seq<char>, index: int) -> Result<Seq<char>, Seq<char>>
    decreases usize::MAX - index,
{
    let len = encode_utf8(content).len() as int;
    if index < 0 || index >= len || index > usize::MAX || !is_char_boundary(encode_utf8(content), index) {
        Ok(content)
    } else {
        match href_pos_spec(content, index) {
            None => Ok(content),
            Some(p) => {
                if p.0 <= index || p.1 < p.0 || p.1 > usize::MAX {
                    Ok(content)
                } else {
                    let hv = bytes_text(content, p.0, p.1);
                    if text::starts_with_spec(hv, "#"@) {
                        m2_content_convert_spec(fm_url, dest_url, content, p.1)
                    } else {
                        match href_convert_spec(fm_url, hv, dest_url) {
                            Err(e) => Err(e),
                            Ok(v) => {
                                let ni = p.0 + encode_utf8(v).len();
                                if ni > usize::MAX {
                                    Ok(splice(content, p.0, p.1, v))
                                } else {
                                    m2_content_convert_spec(fm_url, dest_url, splice(content, p.0, p.1, v), ni)
                                }
                            },
                        }
                    }
                }
            },
        }
    }
}

fn splice_exec(content: &str, start: usize, end: usize, v: &str) -> (r: String)
    requires
        start <= end <= content.spec_bytes().len(),
        is_char_boundary(content.spec_bytes(), start as int),
        is_char_boundary(content.spec_bytes(), end as int),
    ensures
        r@ == splice(content@, start as int, end as int, v@),
{
    proof {
        text::lemma_bytes_valid(content@);
    }
    let a = text::substr(content, 0, start);
    let c = text::suffix(content, end);
    proof {
        text::lemma_bytes_valid(a@);
        text::lemma_bytes_valid(c@);
        assert(a@ == bytes_text(content@, 0, start as int));
        assert(c@ == bytes_text(content@, end as int, content.spec_bytes().len() as int));
    }
    text::concat3(a, v, c)
}

/// Converts the hrefs in a content text of the page moved from `fm_page`
/// to `dest_page`.
#[verifier::rlimit(40)]
pub fn page_move2_subsection_content_href_convert(fm_page: &Page, fm_content: &str, dest_page: &Page) -> (r: Result<String, String>)
    ensures
        r matches Ok(v) ==> m2_content_convert_spec(fm_page.url@, dest_page.url@, fm_content@, 0) == Ok::<Seq<char>, Seq<char>>(v@),
        r matches Err(e) ==> m2_content_convert_spec(fm_page.url@, dest_page.url@, fm_content@, 0) == Err::<Seq<char>, Seq<char>>(e@),
{
    let mut content = String::from_str(fm_content);
    let mut index: usize = 0;
    loop
        invariant_except_break
            m2_content_convert_spec(fm_page.url@, dest_page.url@, fm_content@, 0)
                == m2_content_convert_spec(fm_page.url@, dest_page.url@, content@, index as int),
        ensures
            m2_content_convert_spec(fm_page.url@, dest_page.url@, fm_content@, 0) == Ok::<
                Seq<char>,
                Seq<char>,
            >(content@),
        decreases usize::MAX - index,
    {
        let cs = content.as_str();
        let len = cs.len();
        let ghost b = cs.spec_bytes();
        let blen = cs.as_bytes().len();
        assert(blen == b.len());
        if index == len {
            break;
        }
        if index > len {
            break;
        }
        if !content.as_str().is_char_boundary(index) {
            break;
        }
        let (start, end) = match href_pos(content.as_str(), index) {
            Some(v) => v,
            None => break,
        };
        let href_value = text::substr(content.as_str(), start, end);
        proof {
            text::lemma_bytes_valid(content@);
            text::lemma_bytes_valid(href_value@);
            assert(href_value@ == bytes_text(content@, start as int, end as int));
        }
        if text::starts_with(href_value, "#") {
            index = end;
            continue;
        }
        let href_value = match page_move2_href_convert(fm_page, href_value, dest_page) {
            Ok(v) => v,
            Err(e) => return Err(e),
        };
        content = splice_exec(content.as_str(), start, end, href_value.as_str());
        let vlen = href_value.as_str().as_bytes().len();
        proof {
            text::lemma_bytes_valid(href_value@);
            assert(vlen == encode_utf8(href_value@).len());
        }
        index = match start.checked_add(vlen) {
            Some(v) => v,
            None => break,
        };
    }
    Ok(content)
}

/// The hrefs of the `<a>` elements in a content text, from `index` on,
/// rebased from `fm_url` to `dest_url`: a local href (`#...`) is left
/// alone; any other is replaced between its quotes by its rebased form (or
/// left as it is when it cannot be rebased), and the search goes on after
/// the new value.  The search stops at the end of the text or inside a
/// character.
pub open spec fn m_content_convert_spec(fm_url: Seq<char>, dest_url: Seq<char>, content: Seq<char>, index: int) -> Seq<char>
    decreases usize::MAX - index,
{
    let len = encode_utf8(content).len() as int;
    if index < 0 || index >= len || index > usize::MAX || !is_char_boundary(encode_utf8(content), index) {
        content
    } else {
        match href_pos_spec(content, index) {
            None => content,
            Some(p) => {
                if p.0 <= index || p.1 < p.0 || p.1 > usize::MAX {
                    content
                } else {
                    let hv = bytes_text(content, p.0, p.1);
                    if text::starts_with_spec(hv, "#"@) {
                        m_content_convert_spec(fm_url, dest_url, content, p.1)
                    } else {
                        let v = match href_base_switch_spec(fm_url, hv, dest_url) {
                            Some(v) => v,
                            None => hv,
                        };
                        let ni = p.0 + encode_utf8(v).len();
                        if ni > usize::MAX {
                            splice(content, p.0, p.1, v)
                        } else {
                            m_content_convert_spec(fm_url, dest_url, splice(content, p.0, p.1, v), ni)
                        }
                    }
                }
            },
        }
    }
}

/// Rebases the non-local hrefs in a content text of the page moved from
/// `fm_page` to `dest_page`.
#[verifier::rlimit(40)]
pub fn page_move_subsection_content_href_convert(fm_page: &Page, fm_content: &str, dest_page: &Page) -> (r: String)
    ensures
        r@ == m_content_convert_spec(fm_page.url@, dest_page.url@, fm_content@, 0),
{
    let mut content = String::from_str(fm_content);
    let mut index: usize = 0;
    loop
        invariant_except_break
            m_content_convert_spec(fm_page.url@, dest_page.url@, fm_content@, 0)
                == m_content_convert_spec(fm_page.url@, dest_page.url@, content@, index as int),
        ensures
            m_content_convert_spec(fm_page.url@, dest_page.url@, fm_content@, 0) == content@,
        decreases usize::MAX - index,
    {
        let cs = content.as_str();
        let len = cs.len();
        let ghost b = cs.spec_bytes();
        let blen = cs.as_bytes().len();
        assert(blen == b.len());
        if index == len {
            break;
        }
        if index > len {
            break;
        }
        if !content.as_str().is_char_boundary(index) {
            break;
        }
        let (start, end) = match href_pos(content.as_str(), index) {
            Some(v) => v,
            None => break,
        };
        let href_value = text::substr(content.as_str(), start, end);
        proof {
            text::lemma_bytes_valid(content@);
            text::lemma_bytes_valid(href_value@);
            assert(href_value@ == bytes_text(content@, start as int, end as int));
        }
        if text::starts_with(href_value, "#") {
            index = end;
            continue;
        }
        let href_value = match href_base_switch(fm_page.url.as_str(), href_value, dest_page.url.as_str()) {
            Some(s) => s,
            None => String::from_str(href_value),
        };
        content = splice_exec(content.as_str(), start, end, href_value.as_str());
        let vlen = href_value.as_str().as_bytes().len();
        proof {
            text::lemma_bytes_valid(href_value@);
            assert(vlen == encode_utf8(href_value@).len());
        }
        index = match start.checked_add(vlen) {
            Some(v) => v,
            None => break,
        };
    }
    content
}

// ---------------------------------------------------------------------------
// Moving a page and the pages below it
// ---------------------------------------------------------------------------

/// A content item `{"type": .., "value": v}` keeping the item's type.
pub open spec fn content_item_with(fm_content: JVal, v: Seq<char>) -> JVal {
    jvalue::set(
        jvalue::set(jvalue::empty_obj(), "type"@, jvalue::get(fm_content, "type"@)),
        "value"@,
        jvalue::str_val(v),
    )
}

/// The content items with their hrefs converted for the page moved from
/// `fm_url` to `dest_url`, appended to `done`; the first failure in order
/// stops it.
pub open spec fn m2_items_spec(fm_url: Seq<char>, dest_url: Seq<char>, items: Seq<JVal>, done: Seq<JVal>) -> Result<Seq<JVal>, Seq<char>>
    decreases items.len(),
{
    if items.len() == 0 {
        Ok(done)
    } else {
        let rest = items.subrange(1, items.len() as int);
        match jvalue::as_str(jvalue::get(items[0], "value"@)) {
            None => Err("content.value not found"@),
            Some(fv) => match m2_content_convert_spec(fm_url, dest_url, fv, 0) {
                Err(e) => Err(e),
                Ok(dv) => m2_items_spec(fm_url, dest_url, rest, done.push(content_item_with(items[0], dv))),
            },
        }
    }
}

/// The contents of a subsection converted for the moved page.
pub open spec fn m2_contents_spec(fm_url: Seq<char>, dest_url: Seq<char>, fm_sub: JVal) -> Result<JVal, Seq<char>> {
    match jvalue::get(fm_sub, "content"@) {
        JVal::Arr(items) => match m2_items_spec(fm_url, dest_url, items, Seq::empty()) {
            Ok(v) => Ok(JVal::Arr(v)),
            Err(e) => Err(e),
        },
        _ => Err("fm_subsection content not found"@),
    }
}

fn page_move2_subsection_contents(fm_page: &Page, fm_subsection: &Json, dest_page: &Page) -> (r: Result<Json, String>)
    ensures
        r matches Ok(v) ==> m2_contents_spec(fm_page.url@, dest_page.url@, fm_subsection@) == Ok::<JVal, Seq<char>>(v@),
        r matches Err(e) ==> m2_contents_spec(fm_page.url@, dest_page.url@, fm_subsection@) == Err::<JVal, Seq<char>>(e@),
{
    let fm_contents = match fm_subsection.get("content") {
        Some(c) => match c.as_array() {
            Some(v) => v,
            None => return Err(String::from_str("fm_subsection content not found")),
        },
        None => return Err(String::from_str("fm_subsection content not found")),
    };
    let ghost items = jvalue::members_view(fm_contents@);
    let mut dest_contents: Vec<Json> = Vec::new();
    assert(items.subrange(0, items.len() as int) =~= items);
    assert(jvalue::members_view(dest_contents@) =~= Seq::<JVal>::empty());
    let mut i: usize = 0;
    while i < fm_contents.len()
        invariant
            i <= fm_contents.len(),
            items == jvalue::members_view(fm_contents@),
            jvalue::get(fm_subsection@, "content"@) == JVal::Arr(items),
            m2_items_spec(fm_page.url@, dest_page.url@, items, Seq::empty()) == m2_items_spec(
                fm_page.url@,
                dest_page.url@,
                items.subrange(i as int, items.len() as int),
                jvalue::members_view(dest_contents@),
            ),
        decreases fm_contents.len() - i,
    {
        let fm_content = &fm_contents[i];
        assert(items[i as int] == fm_content@);
        let ghost rest = items.subrange(i as int, items.len() as int);
        assert(rest[0] == fm_content@);
        assert(rest.subrange(1, rest.len() as int) =~= items.subrange(i + 1, items.len() as int));
        let fm_value = match fm_content.get("value") {
            Some(v) => match v.as_str() {
                Some(s) => s,
                None => return Err(String::from_str("content.value not found")),
            },
            None => return Err(String::from_str("content.value not found")),
        };
        let dest_value = match page_move2_subsection_content_href_convert(fm_page, fm_value, dest_page) {
            Ok(v) => v,
            Err(e) => return Err(e),
        };
        let mut dest_content = Json::new_object();
        let t = match fm_content.get("type") {
            Some(t) => t.deep_clone(),
            None => Json::Null,
        };
        dest_content.set("type", t);
        dest_content.set("value", Json::from_str(dest_value.as_str()));
        let ghost before = jvalue::members_view(dest_contents@);
        dest_contents.push(dest_content);
        assert(jvalue::members_view(dest_contents@) =~= before.push(content_item_with(fm_content@, dest_value@)));
        i = i + 1;
    }
    assert(items.subrange(i as int, items.len() as int) =~= Seq::<JVal>::empty());
    let r = Json::Array(dest_contents);
    assert(r@->Arr_0 =~= jvalue::members_view(dest_contents@));
    Ok(r)
}

/// The href of a subsection converted for the moved page; without an href,
/// an error that names the subsection's title when it has one.
pub open spec fn m2_sub_href_spec(fm_url: Seq<char>, dest_url: Seq<char>, fm_sub: JVal) -> Result<Seq<char>, Seq<char>> {
    match jvalue::as_str(jvalue::get(fm_sub, "href"@)) {
        Some(h) => href_convert_spec(fm_url, h, dest_url),
        None => match jvalue::as_str(jvalue::get(fm_sub, "title"@)) {
            Some(t) => Err("title: "@ + t + ": href is not found"@),
            None => Err("href is not found, nether its title"@),
        },
    }
}

fn page_move2_subsection_href(fm_page: &Page, fm_subsection: &Json, dest_page: &Page) -> (r: Result<String, String>)
    ensures
        r matches Ok(v) ==> m2_sub_href_spec(fm_page.url@, dest_page.url@, fm_subsection@) == Ok::<Seq<char>, Seq<char>>(v@),
        r matches Err(e) ==> m2_sub_href_spec(fm_page.url@, dest_page.url@, fm_subsection@) == Err::<Seq<char>, Seq<char>>(e@),
{
    let href = match fm_subsection.get("href") {
        Some(h) => h.as_str(),
        None => None,
    };
    match href {
        Some(v) => page_move2_href_convert(fm_page, v, dest_page),
        None => {
            let title = match fm_subsection.get("title") {
                Some(t) => t.as_str(),
                None => None,
            };
            match title {
                Some(t) => Err(text::concat3("title: ", t, ": href is not found")),
                None => Err(String::from_str("href is not found, nether its title")),
            }
        },
    }
}

/// The subsection records, as `entries()` walks them: none but an object's.
pub open spec fn entries_of(v: JVal) -> Seq<(Seq<char>, JVal)> {
    match v {
        JVal::Obj(e) => e,
        _ => Seq::empty(),
    }
}

/// The subsections of `fm` in order, each with its href and contents
/// converted, set into `acc` under its id; the first failure stops it.
pub open spec fn m2_subs_spec(fm_url: Seq<char>, dest_url: Seq<char>, es: Seq<(Seq<char>, JVal)>, acc: JVal) -> Result<JVal, Seq<char>>
    decreases es.len(),
{
    if es.len() == 0 {
        Ok(acc)
    } else {
        let rest = es.subrange(1, es.len() as int);
        let (id, sub) = es[0];
        match m2_sub_href_spec(fm_url, dest_url, sub) {
            Err(e) => Err(e),
            Ok(h) => match m2_contents_spec(fm_url, dest_url, sub) {
                Err(e) => Err(e),
                Ok(c) => m2_subs_spec(
                    fm_url,
                    dest_url,
                    rest,
                    jvalue::set(acc, id, jvalue::set(jvalue::set(sub, "href"@, jvalue::str_val(h)), "content"@, c)),
                ),
            },
        }
    }
}

/// What `page_move2_subsection` makes of the destination's data: `Err` when
/// it has no subsection records, or has more than the top one (the page is
/// in use); otherwise the converted subsections of `fm` added to them.
pub open spec fn m2_subsection_spec(fm_url: Seq<char>, fm_data: JVal, dest_url: Seq<char>, dest_data: JVal) -> Result<JVal, Seq<char>> {
    match jvalue::get3(dest_data, "data"@, "subsection"@, "data"@) {
        JVal::Obj(e) => if 1 < e.len() {
            Err("dest_page "@ + dest_url + " already have subsection"@)
        } else {
            match m2_subs_spec(
                fm_url,
                dest_url,
                entries_of(jvalue::get3(fm_data, "data"@, "subsection"@, "data"@)),
                JVal::Obj(e),
            ) {
                Err(x) => Err(x),
                Ok(a) => Ok(jvalue::set3(dest_data, "data"@, "subsection"@, "data"@, a)),
            }
        },
        _ => Err("dest_page subsection data not found"@),
    }
}

/// The entries of an object value (none for another value).
fn object_entries(v: Option<&Json>) -> (r: Vec<(String, Json)>)
    ensures
        jvalue::entries_view(r@) == entries_of(
            match v {
                Some(x) => x@,
                None => JVal::Null,
            },
        ),
{
    match v {
        Some(x) => match x.as_object() {
            Some(es) => {
                let mut out: Vec<(String, Json)> = Vec::new();
                let mut i: usize = 0;
                while i < es.len()
                    invariant
                        i <= es.len(),
                        jvalue::entries_view(out@) == jvalue::entries_view(es@).subrange(0, i as int),
                    decreases es.len() - i,
                {
                    let ghost before = jvalue::entries_view(out@);
                    let k = es[i].0.clone();
                    let x = es[i].1.deep_clone();
                    let ghost kv = (k@, x@);
                    assert(kv == jvalue::entries_view(es@)[i as int]);
                    out.push((k, x));
                    assert(jvalue::entries_view(out@) =~= before.push(kv));
                    assert(jvalue::entries_view(out@) =~= jvalue::entries_view(es@).subrange(0, i + 1));
                    i = i + 1;
                }
                assert(jvalue::entries_view(es@).subrange(0, i as int) =~= jvalue::entries_view(es@));
                out
            },
            None => {
                let out: Vec<(String, Json)> = Vec::new();
                assert(jvalue::entries_view(out@) =~= Seq::<(Seq<char>, JVal)>::empty());
                out
            },
        },
        None => {
            let out: Vec<(String, Json)> = Vec::new();
            assert(jvalue::entries_view(out@) =~= Seq::<(Seq<char>, JVal)>::empty());
            out
        },
    }
}

fn page_move2_subsection(fm_page: &Page, dest_page: &mut Page) -> (r: Result<(), String>)
    requires
        fm_page.page_json is Some,
        old(dest_page).page_json is Some,
    ensures
        m2_subsection_spec(fm_page.url@, data_of(*fm_page), old(dest_page).url@, data_of(*old(dest_page))) matches Ok(d)
            ==> r is Ok && data_of(*final(dest_page)) == d,
        m2_subsection_spec(fm_page.url@, data_of(*fm_page), old(dest_page).url@, data_of(*old(dest_page))) matches Err(e)
            ==> (r matches Err(x) && x@ == e),
        r is Err ==> *final(dest_page) == *old(dest_page),
        final(dest_page).url == old(dest_page).url,
        final(dest_page).file == old(dest_page).file,
        final(dest_page).page_json is Some,
        final(dest_page).page_json->Some_0.rev == old(dest_page).page_json->Some_0.rev,
        final(dest_page).page_json->Some_0.rev_next == old(dest_page).page_json->Some_0.rev_next,
{
    let dest_page_json = match dest_page.page_json.as_ref() {
        Some(v) => v.value(),
        None => return Err(String::from_str("dest_page subsection data not found")),
    };
    let dest_subsections = match dest_page_json.get3("data", "subsection", "data") {
        Some(d) => match d.as_object() {
            Some(v) => v,
            None => return Err(String::from_str("dest_page subsection data not found")),
        },
        None => return Err(String::from_str("dest_page subsection data not found")),
    };
    if 1 < dest_subsections.len() {
        return Err(text::concat3("dest_page ", dest_page.url.as_str(), " already have subsection"));
    }
    let mut acc = match dest_page_json.get3("data", "subsection", "data") {
        Some(d) => d.deep_clone(),
        None => Json::Null,
    };
    let fm_page_json = match fm_page.page_json.as_ref() {
        Some(v) => v.value(),
        None => return Err(String::from_str("dest_page subsection data not found")),
    };
    let fm_subsections = object_entries(fm_page_json.get3("data", "subsection", "data"));
    let ghost es = jvalue::entries_view(fm_subsections@);
    let ghost acc0 = acc@;
    let ghost whole = m2_subsection_spec(fm_page.url@, data_of(*fm_page), dest_page.url@, data_of(*dest_page));
    assert(whole == match m2_subs_spec(fm_page.url@, dest_page.url@, es, acc0) {
        Err(x) => Err(x),
        Ok(a) => Ok(jvalue::set3(data_of(*dest_page), "data"@, "subsection"@, "data"@, a)),
    });
    let mut i: usize = 0;
    assert(es.subrange(0, es.len() as int) =~= es);
    while i < fm_subsections.len()
        invariant
            i <= fm_subsections.len(),
            *dest_page == *old(dest_page),
            old(dest_page).page_json is Some,
            whole == m2_subsection_spec(fm_page.url@, data_of(*fm_page), dest_page.url@, data_of(*dest_page)),
            whole == match m2_subs_spec(fm_page.url@, dest_page.url@, es, acc0) {
                Err(x) => Err(x),
                Ok(a) => Ok(jvalue::set3(data_of(*dest_page), "data"@, "subsection"@, "data"@, a)),
            },
            es == jvalue::entries_view(fm_subsections@),
            m2_subs_spec(fm_page.url@, dest_page.url@, es, acc0) == m2_subs_spec(
                fm_page.url@,
                dest_page.url@,
                es.subrange(i as int, es.len() as int),
                acc@,
            ),
        decreases fm_subsections.len() - i,
    {
        assert(es[i as int] == (fm_subsections@[i as int].0@, fm_subsections@[i as int].1@));
        let ghost rest = es.subrange(i as int, es.len() as int);
        assert(rest[0] == es[i as int]);
        assert(rest.subrange(1, rest.len() as int) =~= es.subrange(i + 1, es.len() as int));
        let id = &fm_subsections[i].0;
        let fm_subsection = &fm_subsections[i].1;
        let href = match page_move2_subsection_href(fm_page, fm_subsection, dest_page) {
            Ok(v) => v,
            Err(e) => return Err(e),
        };
        let content = match page_move2_subsection_contents(fm_page, fm_subsection, dest_page) {
            Ok(v) => v,
            Err(e) => return Err(e),
        };
        let mut dest_subsection = fm_subsection.deep_clone();
        dest_subsection.set("href", Json::from_str(href.as_str()));
        dest_subsection.set("content", content);
        acc.set(id.as_str(), dest_subsection);
        i = i + 1;
    }
    assert(es.subrange(i as int, es.len() as int) =~= Seq::<(Seq<char>, JVal)>::empty());
    match dest_page.page_json.as_mut() {
        Some(v) => {
            v.page_json.set3("data", "subsection", "data", acc);
        },
        None => {},
    }
    Ok(())
}

/// The href references in order, their targets converted, set into `acc`;
/// the first target that is no text or fails to convert stops it.
pub open spec fn m2_refs_fold(fm_url: Seq<char>, dest_url: Seq<char>, es: Seq<(Seq<char>, JVal)>, acc: JVal) -> Result<JVal, Seq<char>>
    decreases es.len(),
{
    if es.len() == 0 {
        Ok(acc)
    } else {
        let rest = es.subrange(1, es.len() as int);
        match jvalue::as_str(es[0].1) {
            None => Err("href_reference "@),
            Some(ds) => match href_convert_spec(fm_url, ds, dest_url) {
                Err(e) => Err(e),
                Ok(v) => m2_refs_fold(fm_url, dest_url, rest, jvalue::set(acc, es[0].0, jvalue::str_val(v))),
            },
        }
    }
}

/// What `page_move2_href_reference` makes of the destination's data.
pub open spec fn m2_href_reference_spec(fm_url: Seq<char>, fm_data: JVal, dest_url: Seq<char>, dest_data: JVal) -> Result<JVal, Seq<char>> {
    match jvalue::get2(fm_data, "data"@, "href_reference"@) {
        JVal::Obj(es) => match m2_refs_fold(fm_url, dest_url, es, jvalue::empty_obj()) {
            Err(e) => Err(e),
            Ok(a) => if jvalue::get2(dest_data, "data"@, "href_reference"@) is Obj {
                Ok(jvalue::set2(dest_data, "data"@, "href_reference"@, a))
            } else {
                Err("dest_page href_reference data not found"@)
            },
        },
        _ => Ok(dest_data),
    }
}

fn page_move2_href_reference(fm_page: &Page, dest_page: &mut Page) -> (r: Result<(), String>)
    requires
        fm_page.page_json is Some,
        old(dest_page).page_json is Some,
    ensures
        m2_href_reference_spec(fm_page.url@, data_of(*fm_page), old(dest_page).url@, data_of(*old(dest_page))) matches Ok(d)
            ==> r is Ok && data_of(*final(dest_page)) == d,
        m2_href_reference_spec(fm_page.url@, data_of(*fm_page), old(dest_page).url@, data_of(*old(dest_page))) matches Err(e)
            ==> (r matches Err(x) && x@ == e),
        r is Err ==> *final(dest_page) == *old(dest_page),
        final(dest_page).url == old(dest_page).url,
        final(dest_page).file == old(dest_page).file,
        final(dest_page).page_json is Some,
        final(dest_page).page_json->Some_0.rev == old(dest_page).page_json->Some_0.rev,
        final(dest_page).page_json->Some_0.rev_next == old(dest_page).page_json->Some_0.rev_next,
{
    let fm_page_json = match fm_page.page_json.as_ref() {
        Some(v) => v.value(),
        None => return Ok(()),
    };
    let fm_href_reference = match fm_page_json.get2("data", "href_reference") {
        Some(v) => match v.as_object() {
            Some(o) => o,
            None => return Ok(()),
        },
        None => return Ok(()),
    };
    let ghost es = jvalue::entries_view(fm_href_reference@);
    let mut dest_href_reference = Json::new_object();
    let mut i: usize = 0;
    assert(es.subrange(0, es.len() as int) =~= es);
    assert(jvalue::get2(data_of(*fm_page), "data"@, "href_reference"@) == JVal::Obj(es));
    while i < fm_href_reference.len()
        invariant
            i <= fm_href_reference.len(),
            *dest_page == *old(dest_page),
            old(dest_page).page_json is Some,
            fm_page.page_json is Some,
            jvalue::get2(data_of(*fm_page), "data"@, "href_reference"@) == JVal::Obj(es),
            es == jvalue::entries_view(fm_href_reference@),
            m2_refs_fold(fm_page.url@, dest_page.url@, es, jvalue::empty_obj()) == m2_refs_fold(
                fm_page.url@,
                dest_page.url@,
                es.subrange(i as int, es.len() as int),
                dest_href_reference@,
            ),
        decreases fm_href_reference.len() - i,
    {
        assert(es[i as int] == (fm_href_reference@[i as int].0@, fm_href_reference@[i as int].1@));
        let ghost rest = es.subrange(i as int, es.len() as int);
        assert(rest[0] == es[i as int]);
        assert(rest.subrange(1, rest.len() as int) =~= es.subrange(i + 1, es.len() as int));
        let href = &fm_href_reference[i].0;
        let dest_str = match fm_href_reference[i].1.as_str() {
            Some(v) => v,
            None => return Err(String::from_str("href_reference ")),
        };
        let dest = match page_move2_href_convert(fm_page, dest_str, dest_page) {
            Ok(v) => v,
            Err(e) => return Err(e),
        };
        dest_href_reference.set(href.as_str(), Json::from_str(dest.as_str()));
        i = i + 1;
    }
    assert(es.subrange(i as int, es.len() as int) =~= Seq::<(Seq<char>, JVal)>::empty());
    let dest_is_obj = match dest_page.page_json.as_ref() {
        Some(v) => match v.value().get2("data", "href_reference") {
            Some(x) => x.as_object().is_some(),
            None => false,
        },
        None => false,
    };
    if !dest_is_obj {
        return Err(String::from_str("dest_page href_reference data not found"));
    }
    match dest_page.page_json.as_mut() {
        Some(v) => {
            v.page_json.set2("data", "href_reference", dest_href_reference);
        },
        None => {},
    }
    Ok(())
}

/// What `page_move2_navi_set` makes of the destination's navigation: with a
/// parent, and more than one navigation item in `fm`, the parent's
/// navigation seen from the new location `dest_url` followed by an item
/// for `fm`; otherwise one item for `fm` alone (`Err` when `fm` has no
/// title).
pub open spec fn m2_navi_spec(parent: Option<Page>, fm: Page, dest_url: Seq<char>, dest_data: JVal) -> Result<JVal, Seq<char>> {
    let fm_data = data_of(fm);
    match jvalue::get2(fm_data, "data"@, "navi"@) {
        JVal::Arr(items) => {
            let navi = match parent {
                Some(p) if items.len() != 1 => navi_inherit_and_child_spec(p, dest_url, Some(fm_data)),
                _ => match jvalue::as_str(jvalue::get3(fm_data, "data"@, "page"@, "title"@)) {
                    Some(t) => Ok(JVal::Arr(seq![navi_pair(t, Seq::empty())])),
                    None => Err("no fm_page title fond"@),
                },
            };
            match navi {
                Ok(v) => Ok(jvalue::set2(dest_data, "data"@, "navi"@, v)),
                Err(e) => Err(e),
            }
        },
        _ => Err("fm_page navi not found"@),
    }
}

fn page_move2_navi_set(parent_page: Option<&Page>, fm_page: &Page, dest_page: &mut Page) -> (r: Result<(), String>)
    requires
        fm_page.page_json is Some,
        old(dest_page).page_json is Some,
    ensures
        m2_navi_spec(
            match parent_page {
                Some(p) => Some(*p),
                None => None,
            },
            *fm_page,
            old(dest_page).url@,
            data_of(*old(dest_page)),
        ) matches Ok(d) ==> r is Ok && data_of(*final(dest_page)) == d,
        m2_navi_spec(
            match parent_page {
                Some(p) => Some(*p),
                None => None,
            },
            *fm_page,
            old(dest_page).url@,
            data_of(*old(dest_page)),
        ) matches Err(e) ==> (r matches Err(x) && x@ == e),
        r is Err ==> *final(dest_page) == *old(dest_page),
        final(dest_page).url == old(dest_page).url,
        final(dest_page).file == old(dest_page).file,
        final(dest_page).page_json is Some,
        final(dest_page).page_json->Some_0.rev == old(dest_page).page_json->Some_0.rev,
        final(dest_page).page_json->Some_0.rev_next == old(dest_page).page_json->Some_0.rev_next,
{
    let fm_page_json = match fm_page.page_json.as_ref() {
        Some(v) => v.value(),
        None => return Err(String::from_str("fm_page navi not found")),
    };
    let fm_page_navi = match fm_page_json.get2("data", "navi") {
        Some(n) => match n.as_array() {
            Some(v) => v,
            None => return Err(String::from_str("fm_page navi not found")),
        },
        None => return Err(String::from_str("fm_page navi not found")),
    };
    let parent_page2 = match parent_page {
        Some(v) => {
            if fm_page_navi.len() == 1 {
                None
            } else {
                Some(v)
            }
        },
        None => None,
    };
    let dest_navi = match parent_page2 {
        Some(parent_page) => {
            let mut navi = match navi_parent_inherit(parent_page, dest_page) {
                Ok(v) => v,
                Err(e) => return Err(e),
            };
            proof {
                reveal_strlit("no title");
                reveal_strlit("");
                assert(""@ =~= Seq::<char>::empty());
            }
            let title = match fm_page_json.get3("data", "page", "title") {
                Some(t) => match t.as_str() {
                    Some(s) => s,
                    None => "no title",
                },
                None => "no title",
            };
            let _res = navi.push(Json::pair(title, ""));
            navi
        },
        None => {
            let title = match fm_page_json.get3("data", "page", "title") {
                Some(t) => match t.as_str() {
                    Some(s) => s,
                    None => return Err(String::from_str("no fm_page title fond")),
                },
                None => return Err(String::from_str("no fm_page title fond")),
            };
            proof {
                reveal_strlit("");
                assert(""@ =~= Seq::<char>::empty());
            }
            let mut navi = Json::new_array();
            let _r = navi.push(Json::pair(title, ""));
            assert(navi@->Arr_0 =~= seq![navi_pair(title@, Seq::empty())]);
            navi
        },
    };
    match dest_page.page_json.as_mut() {
        Some(v) => {
            v.page_json.set2("data", "navi", dest_navi);
        },
        None => {},
    }
    Ok(())
}

/// What `page_move2_fm_navi_set` makes of the data of the moved page: its
/// last navigation item becomes `[title (moved to: path), ""]`.
pub open spec fn m2_fm_navi_spec(fm_data: JVal, dest_url: Seq<char>) -> Result<JVal, Seq<char>> {
    match jvalue::get2(fm_data, "data"@, "navi"@) {
        JVal::Arr(a) => if a.len() == 0 {
            Ok(fm_data)
        } else {
            match a[a.len() - 1] {
                JVal::Arr(l) => if l.len() == 0 {
                    Err("fm_page last have has not value"@)
                } else {
                    match jvalue::as_str(l[0]) {
                        None => Err("fm_page last has no value as str"@),
                        Some(t) => Ok(
                            jvalue::set2(
                                fm_data,
                                "data"@,
                                "navi"@,
                                JVal::Arr(
                                    a.update(
                                        a.len() - 1,
                                        navi_pair(
                                            t + " (moved to: "@ + url_util::url_path_spec(dest_url) + ")"@,
                                            Seq::empty(),
                                        ),
                                    ),
                                ),
                            ),
                        ),
                    }
                },
                _ => Err("fm_page last navi not found"@),
            }
        },
        _ => Err("fm_page navi not found"@),
    }
}

fn page_move2_fm_navi_set(fm_page: &mut Page, dest_page: &Page) -> (r: Result<(), String>)
    requires
        old(fm_page).page_json is Some,
    ensures
        m2_fm_navi_spec(data_of(*old(fm_page)), dest_page.url@) matches Ok(d) ==> r is Ok && data_of(*final(fm_page)) == d,
        m2_fm_navi_spec(data_of(*old(fm_page)), dest_page.url@) matches Err(e) ==> (r matches Err(x) && x@ == e),
        r is Err ==> *final(fm_page) == *old(fm_page),
        final(fm_page).url == old(fm_page).url,
        final(fm_page).file == old(fm_page).file,
        final(fm_page).page_json is Some,
        final(fm_page).page_json->Some_0.rev == old(fm_page).page_json->Some_0.rev,
        final(fm_page).page_json->Some_0.rev_next == old(fm_page).page_json->Some_0.rev_next,
{
    let fm_page_json = match fm_page.page_json.as_ref() {
        Some(v) => v.value(),
        None => return Err(String::from_str("fm_page navi not found")),
    };
    let mut fm_page_navi = match fm_page_json.get2("data", "navi") {
        Some(n) => match n.as_array() {
            Some(_) => n.deep_clone(),
            None => return Err(String::from_str("fm_page navi not found")),
        },
        None => return Err(String::from_str("fm_page navi not found")),
    };
    let navi_len = fm_page_navi.len();
    if navi_len == 0 {
        return Ok(());
    }
    let i_last = navi_len - 1;
    let title = match fm_page_navi.at(i_last) {
        Some(last) => match last.as_array() {
            Some(l) => {
                if l.len() == 0 {
                    return Err(String::from_str("fm_page last have has not value"));
                }
                match l[0].as_str() {
                    Some(v) => String::from_str(v),
                    None => return Err(String::from_str("fm_page last has no value as str")),
                }
            },
            None => return Err(String::from_str("fm_page last navi not found")),
        },
        None => return Err(String::from_str("fm_page last navi not found")),
    };
    let path = url_util::path(dest_page.url.as_str());
    let moved = text::concat3(title.as_str(), " (moved to: ", path.as_str());
    let title2 = text::concat(moved.as_str(), ")");
    proof {
        reveal_strlit("");
        assert(""@ =~= Seq::<char>::empty());
    }
    let ghost a = jvalue::get2(data_of(*fm_page), "data"@, "navi"@)->Arr_0;
    assert(fm_page_navi@ == JVal::Arr(a));
    assert(a.len() == navi_len);
    assert(title2@ == title@ + " (moved to: "@ + url_util::url_path_spec(dest_page.url@) + ")"@);
    assert(jvalue::as_str(a[a.len() - 1]->Arr_0[0]) == Some(title@));
    let members = match fm_page_navi {
        Json::Array(v) => v,
        _ => Vec::new(),
    };
    let ghost before = jvalue::members_view(members@);
    assert(before == a);
    let mut members = members;
    members.set(i_last, Json::pair(title2.as_str(), ""));
    let new_navi = Json::Array(members);
    assert(new_navi@->Arr_0 =~= before.update(i_last as int, navi_pair(title2@, Seq::empty())));
    match fm_page.page_json.as_mut() {
        Some(v) => {
            v.page_json.set2("data", "navi", new_navi);
        },
        None => {},
    }
    Ok(())
}

/// What `page_move2_fm_clear` does to the moved page: its navigation is
/// marked as moved (left as it was when that fails), and it is written
/// anew; `Ok` gives the name of its backup.
fn page_move2_fm_clear(fm_page: &mut Page, dest_page: &Page) -> (r: Result<String, String>)
    requires
        old(fm_page).page_json is Some,
    ensures
        ({
            let pj = old(fm_page).page_json->Some_0;
            let d1 = match m2_fm_navi_spec(pj.page_json@, dest_page.url@) {
                Ok(d) => d,
                Err(_) => pj.page_json@,
            };
            &&& (update_fails(pj.rev, pj.rev_next, d1) <==> r is Err)
            &&& r matches Err(e) ==> e@ == "fm_page page_json_update_save was failed"@
            &&& r matches Ok(name) ==> super::update_saved(
                old(fm_page).file.filename_spec(),
                pj.rev,
                pj.rev_next,
                d1,
                *final(fm_page),
                name@,
            )
        }),
        final(fm_page).url == old(fm_page).url,
        final(fm_page).page_json is Some,
{
    let _r = page_move2_fm_navi_set(fm_page, dest_page);
    match fm_page.page_json_update_save() {
        Ok(name) => Ok(name),
        Err(_) => Err(String::from_str("fm_page page_json_update_save was failed")),
    }
}

/// Where a sub page of the moved page goes: for a subsection whose href
/// (not empty, not local) leads into the moved page's directory or below,
/// the URL of the sub page and the URL it moves to.
pub open spec fn child_target(fm_url: Seq<char>, dest_url: Seq<char>, sub: JVal) -> Option<(Seq<char>, Seq<char>)> {
    match jvalue::as_str(jvalue::get(sub, "href"@)) {
        None => None,
        Some(h) => if h.len() == 0 || text::starts_with_spec(h, "#"@) {
            None
        } else {
            match url_util::url_join_spec(fm_url, h) {
                None => None,
                Some(cu) => match url_util::url_relative_spec(fm_url, cu) {
                    None => None,
                    Some(rel) => if text::starts_with_spec(rel, "../"@) {
                        None
                    } else {
                        match href_convert_spec(fm_url, h, dest_url) {
                            Err(_) => None,
                            Ok(dh) => match url_util::url_join_spec(dest_url, dh) {
                                None => None,
                                Some(du) => Some((cu, du)),
                            },
                        }
                    },
                },
            }
        },
    }
}

/// The sub pages to move along, in the order of the subsections.
pub open spec fn children_spec(fm_url: Seq<char>, dest_url: Seq<char>, es: Seq<(Seq<char>, JVal)>) -> Seq<(Seq<char>, Seq<char>)>
    decreases es.len(),
{
    if es.len() == 0 {
        Seq::empty()
    } else {
        let prev = children_spec(fm_url, dest_url, es.drop_last());
        match child_target(fm_url, dest_url, es.last().1) {
            Some(t) => prev.push(t),
            None => prev,
        }
    }
}

/// Whether the subsection record `sub` leads to the page at `u` below the
/// page at `fm_url`: its href is a non-empty text that is no local
/// fragment (`#...`), resolves against `fm_url` to `u`, and is reached
/// from `fm_url` without going up (`../`).
pub open spec fn leads_below(fm_url: Seq<char>, sub: JVal, u: Seq<char>) -> bool {
    match jvalue::as_str(jvalue::get(sub, "href"@)) {
        Some(h) => h.len() > 0 && !text::starts_with_spec(h, "#"@) && url_util::url_join_spec(fm_url, h) == Some(u)
            && match url_util::url_relative_spec(fm_url, u) {
            Some(rel) => !text::starts_with_spec(rel, "../"@),
            None => false,
        },
        None => false,
    }
}

/// Whether the href of the subsection record `sub`, converted for the page
/// moved from `fm_url` to `dest_url`, leads from `dest_url` to `u`.
pub open spec fn moved_to(fm_url: Seq<char>, dest_url: Seq<char>, sub: JVal, u: Seq<char>) -> bool {
    match jvalue::as_str(jvalue::get(sub, "href"@)) {
        Some(h) => match href_convert_spec(fm_url, h, dest_url) {
            Ok(dh) => url_util::url_join_spec(dest_url, dh) == Some(u),
            Err(_) => false,
        },
        None => false,
    }
}

/// Whether some subsection record of `es` leads to the first of `pair`
/// below the moved page, and, converted, to the second from the
/// destination.
pub open spec fn has_source(fm_url: Seq<char>, dest_url: Seq<char>, es: Seq<(Seq<char>, JVal)>, pair: (Seq<char>, Seq<char>)) -> bool {
    exists|k: int| 0 <= k < es.len() && #[trigger] leads_below(fm_url, es[k].1, pair.0) && moved_to(fm_url, dest_url, es[k].1, pair.1)
}

/// The sub pages moved along with a page are the pages its subsections lead
/// into, never the page itself: each listed pair comes from a subsection
/// that leads below the moved page (`leads_below`: an href that is no
/// local fragment); its first part is where that href leads, its second
/// where the href, converted for the destination, leads from there.
pub proof fn law_children_are_sub_pages(fm_url: Seq<char>, dest_url: Seq<char>, es: Seq<(Seq<char>, JVal)>)
    ensures
        forall|i: int|
            0 <= i < children_spec(fm_url, dest_url, es).len() ==> has_source(
                fm_url,
                dest_url,
                es,
                #[trigger] children_spec(fm_url, dest_url, es)[i],
            ),
    decreases es.len(),
{
    if es.len() > 0 {
        let d = es.drop_last();
        law_children_are_sub_pages(fm_url, dest_url, d);
        let prev = children_spec(fm_url, dest_url, d);
        let c = children_spec(fm_url, dest_url, es);
        assert forall|i: int| 0 <= i < c.len() implies has_source(fm_url, dest_url, es, #[trigger] c[i]) by {
            if i < prev.len() {
                assert(c[i] == prev[i]);
                assert(has_source(fm_url, dest_url, d, prev[i]));
                let k = choose|k: int|
                    0 <= k < d.len() && #[trigger] leads_below(fm_url, d[k].1, prev[i].0) && moved_to(fm_url, dest_url, d[k].1, prev[i].1);
                assert(es[k] == d[k]);
                assert(leads_below(fm_url, es[k].1, c[i].0));
            } else {
                let k = es.len() - 1;
                assert(leads_below(fm_url, es[k].1, c[i].0));
                assert(moved_to(fm_url, dest_url, es[k].1, c[i].1));
            }
        }
    }
}

/// The views of pairs of texts.
pub open spec fn pairs_view(v: Seq<(String, String)>) -> Seq<(Seq<char>, Seq<char>)> {
    Seq::new(v.len(), |i: int| (v[i].0@, v[i].1@))
}

fn child_target_exec(fm_page: &Page, dest_page: &Page, fm_subsection: &Json) -> (r: Option<(String, String)>)
    ensures
        r matches Some(t) ==> child_target(fm_page.url@, dest_page.url@, fm_subsection@) == Some((t.0@, t.1@)),
        r is None ==> child_target(fm_page.url@, dest_page.url@, fm_subsection@) is None,
{
    let fm_child_href = match fm_subsection.get("href") {
        Some(h) => match h.as_str() {
            Some(v) => v,
            None => return None,
        },
        None => return None,
    };
    if fm_child_href.unicode_len() == 0 {
        return None;
    }
    if text::starts_with(fm_child_href, "#") {
        return None;
    }
    let fm_child_url = match url_util::join(fm_page.url.as_str(), fm_child_href) {
        Some(v) => v,
        None => return None,
    };
    let fm_child_relative = match url_util::make_relative(fm_page.url.as_str(), fm_child_url.as_str()) {
        Some(v) => v,
        None => return None,
    };
    if text::starts_with(fm_child_relative.as_str(), "../") {
        return None;
    }
    let dest_child_href = match page_move2_href_convert(fm_page, fm_child_href, dest_page) {
        Ok(v) => v,
        Err(_) => return None,
    };
    let dest_child_url = match url_util::join(dest_page.url.as_str(), dest_child_href.as_str()) {
        Some(v) => v,
        None => return None,
    };
    Some((fm_child_url, dest_child_url))
}

/// The sub pages of the moved page to move along with it: for each, its URL
/// and the URL it moves to.  The caller moves each (`page_move2` with the
/// destination as parent).
pub fn page_move2_children(fm_page: &Page, dest_page: &Page) -> (r: Vec<(String, String)>)
    requires
        fm_page.page_json is Some,
    ensures
        pairs_view(r@) == children_spec(
            fm_page.url@,
            dest_page.url@,
            entries_of(jvalue::get3(data_of(*fm_page), "data"@, "subsection"@, "data"@)),
        ),
{
    let fm_page_json = match fm_page.page_json.as_ref() {
        Some(v) => v.value(),
        None => {
            let out: Vec<(String, String)> = Vec::new();
            return out;
        },
    };
    let fm_subsections = object_entries(fm_page_json.get3("data", "subsection", "data"));
    let ghost es = jvalue::entries_view(fm_subsections@);
    let mut out: Vec<(String, String)> = Vec::new();
    let mut i: usize = 0;
    assert(pairs_view(out@) =~= Seq::<(Seq<char>, Seq<char>)>::empty());
    while i < fm_subsections.len()
        invariant
            i <= fm_subsections.len(),
            es == jvalue::entries_view(fm_subsections@),
            pairs_view(out@) == children_spec(fm_page.url@, dest_page.url@, es.subrange(0, i as int)),
        decreases fm_subsections.len() - i,
    {
        assert(es.subrange(0, i + 1).drop_last() =~= es.subrange(0, i as int));
        assert(es[i as int].1 == fm_subsections@[i as int].1@);
        match child_target_exec(fm_page, dest_page, &fm_subsections[i].1) {
            Some(t) => {
                let ghost before = pairs_view(out@);
                let ghost tv = (t.0@, t.1@);
                out.push(t);
                assert(pairs_view(out@) =~= before.push(tv));
            },
            None => {},
        }
        i = i + 1;
    }
    assert(es.subrange(0, i as int) =~= es);
    out
}

/// What a move leaves to do: the backup name of the destination page (its
/// text and bytes to be written, as for `page_json_update_save`), the
/// moved page's own save (or why it failed), and the sub pages to move
/// along.
pub struct Move2Done {
    pub dest_backup: String,
    pub fm_backup: Result<String, String>,
    pub children: Vec<(String, String)>,
}

/// The destination's data after the three steps of a move, or the first
/// failure.
pub open spec fn m2_steps_spec(parent: Option<Page>, fm: Page, dest: Page) -> Result<JVal, Seq<char>> {
    match m2_navi_spec(parent, fm, dest.url@, data_of(dest)) {
        Err(e) => Err(e),
        Ok(d1) => match m2_subsection_spec(fm.url@, data_of(fm), dest.url@, d1) {
            Err(e) => Err(e),
            Ok(d2) => m2_href_reference_spec(fm.url@, data_of(fm), dest.url@, d2),
        },
    }
}

/// The destination's data where the three steps of the second way to move
/// a page stop: after all three, or after the steps before the failing one
/// (a failing step changes nothing).
pub open spec fn m2_steps_left_spec(parent: Option<Page>, fm: Page, dest: Page) -> JVal {
    match m2_navi_spec(parent, fm, dest.url@, data_of(dest)) {
        Err(_) => data_of(dest),
        Ok(d1) => match m2_subsection_spec(fm.url@, data_of(fm), dest.url@, d1) {
            Err(_) => d1,
            Ok(d2) => match m2_href_reference_spec(fm.url@, data_of(fm), dest.url@, d2) {
                Err(_) => d2,
                Ok(d3) => d3,
            },
        },
    }
}

/// What the moved page becomes once its destination is written: its last
/// navigation item is marked as moved to `dest_url` (its data is left as it
/// was when that fails), and it is written anew (see `update_saved`), or
/// `fm_backup` says why not.
pub open spec fn moved_page_saved(fm: Page, dest_url: Seq<char>, after: Page, fm_backup: Result<String, String>) -> bool {
    let pj = fm.page_json->Some_0;
    let d1 = match m2_fm_navi_spec(pj.page_json@, dest_url) {
        Ok(d) => d,
        Err(_) => pj.page_json@,
    };
    &&& (update_fails(pj.rev, pj.rev_next, d1) <==> fm_backup is Err)
    &&& fm_backup matches Err(e) ==> e@ == "fm_page page_json_update_save was failed"@
    &&& fm_backup matches Ok(name) ==> super::update_saved(
        fm.file.filename_spec(),
        pj.rev,
        pj.rev_next,
        d1,
        after,
        name@,
    )
    &&& after.url == fm.url
}

/// Moves the page `fm_page` to `dest_page` (below `parent_page`, if any):
/// the destination gets its navigation (inherited from the parent, or its
/// own item), its subsections and href references with hrefs converted,
/// and is written anew; the moved page is marked as moved and written
/// anew.  The caller has loaded the pages, saved the destination's current
/// content (`page_current_save`), writes the files that the result names,
/// and moves the sub pages it lists.
pub fn page_move2(parent_page: Option<&Page>, dest_page: &mut Page, fm_page: &mut Page) -> (r: Result<Move2Done, String>)
    ensures
        old(fm_page).page_json is None ==> (r matches Err(e) && e@ == "page_move2 page_json is none"@),
        old(fm_page).page_json is Some && old(dest_page).page_json is None ==> (r matches Err(e) && e@
            == "page_move2 page_json is none"@),
        old(fm_page).page_json is Some && old(dest_page).page_json is Some ==> ({
            let parent = match parent_page {
                Some(p) => Some(*p),
                None => None,
            };
            let pj = old(dest_page).page_json->Some_0;
            match m2_steps_spec(parent, *old(fm_page), *old(dest_page)) {
                Err(e) => r matches Err(x) && x@ == e && final(dest_page).page_json is Some
                    && data_of(*final(dest_page)) == m2_steps_left_spec(parent, *old(fm_page), *old(dest_page)),
                Ok(d3) => if update_fails(pj.rev, pj.rev_next, d3) {
                    r matches Err(x) && x@ == "page_json_update_save was failed"@
                        && final(dest_page).page_json is Some && data_of(*final(dest_page)) == d3
                } else {
                    r matches Ok(done) && super::update_saved(
                        old(dest_page).file.filename_spec(),
                        pj.rev,
                        pj.rev_next,
                        d3,
                        *final(dest_page),
                        done.dest_backup@,
                    ) && final(fm_page).page_json is Some && pairs_view(done.children@) == children_spec(
                        old(fm_page).url@,
                        old(dest_page).url@,
                        entries_of(jvalue::get3(data_of(*final(fm_page)), "data"@, "subsection"@, "data"@)),
                    ) && moved_page_saved(*old(fm_page), old(dest_page).url@, *final(fm_page), done.fm_backup)
                },
            }
        }),
        r is Err ==> *final(fm_page) == *old(fm_page),
{
    if fm_page.page_json.is_none() {
        return Err(String::from_str("page_move2 page_json is none"));
    }
    if dest_page.page_json.is_none() {
        return Err(String::from_str("page_move2 page_json is none"));
    }
    if let Err(e) = page_move2_navi_set(parent_page, fm_page, dest_page) {
        return Err(e);
    }
    if let Err(e) = page_move2_subsection(fm_page, dest_page) {
        return Err(e);
    }
    if let Err(e) = page_move2_href_reference(fm_page, dest_page) {
        return Err(e);
    }
    let dest_backup = match dest_page.page_json_update_save() {
        Ok(v) => v,
        Err(_) => return Err(String::from_str("page_json_update_save was failed")),
    };
    let fm_backup = page_move2_fm_clear(fm_page, dest_page);
    let children = page_move2_children(fm_page, dest_page);
    Ok(Move2Done { dest_backup, fm_backup, children })
}

// ---------------------------------------------------------------------------
// Moving a page (the first way)
// ---------------------------------------------------------------------------

/// What `page_move_navi_set` makes of the destination's data: with a parent,
/// the parent's navigation followed by an item for `fm`; otherwise `fm`
/// as the single top item, `[[title, ""]]` (`Err` when `fm` has no title).
pub open spec fn m_navi_spec(parent: Option<Page>, fm: Page, dest_data: JVal) -> Result<JVal, Seq<char>> {
    let navi = match parent {
        Some(p) => navi_inherit_and_child_spec(p, fm.url@, Some(data_of(fm))),
        None => match jvalue::as_str(jvalue::get3(data_of(fm), "data"@, "page"@, "title"@)) {
            Some(t) => Ok(JVal::Arr(seq![navi_pair(t, Seq::empty())])),
            None => Err("no page title fond"@),
        },
    };
    match navi {
        Ok(v) => Ok(jvalue::set2(dest_data, "data"@, "navi"@, v)),
        Err(e) => Err(e),
    }
}

fn page_move_navi_set(parent_page: Option<&Page>, fm_page: &Page, dest_page: &mut Page) -> (r: Result<(), String>)
    requires
        fm_page.page_json is Some,
        old(dest_page).page_json is Some,
    ensures
        m_navi_spec(
            match parent_page {
                Some(p) => Some(*p),
                None => None,
            },
            *fm_page,
            data_of(*old(dest_page)),
        ) matches Ok(d) ==> r is Ok && data_of(*final(dest_page)) == d,
        m_navi_spec(
            match parent_page {
                Some(p) => Some(*p),
                None => None,
            },
            *fm_page,
            data_of(*old(dest_page)),
        ) matches Err(e) ==> (r matches Err(x) && x@ == e),
        r is Err ==> *final(dest_page) == *old(dest_page),
        final(dest_page).url == old(dest_page).url,
        final(dest_page).file == old(dest_page).file,
        final(dest_page).page_json is Some,
        final(dest_page).page_json->Some_0.rev == old(dest_page).page_json->Some_0.rev,
        final(dest_page).page_json->Some_0.rev_next == old(dest_page).page_json->Some_0.rev_next,
{
    let navi = match parent_page {
        Some(parent_page) => match navi_parent_inherit_and_chld(parent_page, fm_page) {
            Ok(v) => v,
            Err(e) => return Err(e),
        },
        None => {
            let fm_page_json = match fm_page.page_json.as_ref() {
                Some(v) => v.value(),
                None => return Err(String::from_str("no page title fond")),
            };
            let title = match fm_page_json.get3("data", "page", "title") {
                Some(t) => match t.as_str() {
                    Some(s) => s,
                    None => return Err(String::from_str("no page title fond")),
                },
                None => return Err(String::from_str("no page title fond")),
            };
            proof {
                reveal_strlit("");
                assert(""@ =~= Seq::<char>::empty());
            }
            let mut navi = Json::new_array();
            let _r = navi.push(Json::pair(title, ""));
            assert(navi@->Arr_0 =~= seq![navi_pair(title@, Seq::empty())]);
            navi
        },
    };
    match dest_page.page_json.as_mut() {
        Some(v) => {
            v.page_json.set2("data", "navi", navi);
        },
        None => {},
    }
    Ok(())
}

/// Whether some subsection has `h` as its href.
pub open spec fn href_taken(es: Seq<(Seq<char>, JVal)>, h: Seq<char>) -> bool {
    exists|k: int| 0 <= k < es.len() && jvalue::as_str(jvalue::get((#[trigger] es[k]).1, "href"@)) == Some(h)
}

/// The local href `#undefined` followed by the number.
pub open spec fn undefined_href(i: u32) -> Seq<char> {
    "#undefined"@ + text::dec_spec(i as nat)
}

/// The least number from `i` on whose `#undefined` href no subsection has.
pub open spec fn first_free_from(es: Seq<(Seq<char>, JVal)>, i: int) -> Option<u32>
    decreases u32::MAX + 1 - i,
{
    if i < 0 || i > u32::MAX {
        None
    } else if !href_taken(es, undefined_href(i as u32)) {
        Some(i as u32)
    } else {
        first_free_from(es, i + 1)
    }
}

/// A local href that no subsection of the page has: `#undefined` followed
/// by the least such number; `None` when the page has no subsection
/// records.
pub open spec fn page_href_temp_spec(page: Page) -> Option<Seq<char>> {
    if page.page_json is None {
        None
    } else {
        match jvalue::get3(data_of(page), "data"@, "subsection"@, "data"@) {
            JVal::Obj(es) => match first_free_from(es, 0) {
                Some(i) => Some(undefined_href(i)),
                None => None,
            },
            _ => None,
        }
    }
}

fn page_href_temp(page: &Page) -> (r: Option<String>)
    ensures
        r matches Some(h) ==> page_href_temp_spec(*page) == Some(h@),
        r is None ==> page_href_temp_spec(*page) is None,
{
    let page_json = match &page.page_json {
        Some(v) => v.value(),
        None => return None,
    };
    let subsections = match page_json.get3("data", "subsection", "data") {
        Some(d) => match d.as_object() {
            Some(v) => v,
            None => return None,
        },
        None => return None,
    };
    let ghost es = jvalue::entries_view(subsections@);
    let mut i: u32 = 0;
    loop
        invariant
            es == jvalue::entries_view(subsections@),
            page.page_json is Some,
            jvalue::get3(data_of(*page), "data"@, "subsection"@, "data"@) == JVal::Obj(es),
            first_free_from(es, 0) == first_free_from(es, i as int),
        decreases u32::MAX - i,
    {
        let num = text::u32_to_string(i);
        let candidate = text::concat("#undefined", num.as_str());
        let mut matched = false;
        let mut k: usize = 0;
        while k < subsections.len()
            invariant_except_break
                !matched,
            invariant
                k <= subsections.len(),
                es == jvalue::entries_view(subsections@),
                forall|j: int|
                    0 <= j < k ==> jvalue::as_str(jvalue::get((#[trigger] es[j]).1, "href"@)) != Some(
                        candidate@,
                    ),
            ensures
                matched ==> href_taken(es, candidate@),
                !matched ==> forall|j: int|
                    0 <= j < es.len() ==> jvalue::as_str(jvalue::get((#[trigger] es[j]).1, "href"@))
                        != Some(candidate@),
            decreases subsections.len() - k,
        {
            assert(es[k as int].1 == subsections@[k as int].1@);
            let hit = match subsections[k].1.get("href") {
                Some(h) => match h.as_str() {
                    Some(v) => text::str_eq(v, candidate.as_str()),
                    None => false,
                },
                None => false,
            };
            if hit {
                assert(jvalue::as_str(jvalue::get(es[k as int].1, "href"@)) == Some(candidate@));
                matched = true;
                break;
            }
            k = k + 1;
        }
        if !matched {
            assert(!href_taken(es, candidate@));
            return Some(candidate);
        }
        assert(href_taken(es, candidate@));
        assert(first_free_from(es, i as int) == first_free_from(es, i + 1));
        i = match i.checked_add(1) {
            Some(v) => v,
            None => {
                assert(first_free_from(es, u32::MAX + 1) is None);
                return None;
            },
        };
    }
}

/// The href of a subsection rebased to the destination; a temporary local
/// href when it has none.
pub open spec fn m_sub_href_spec(fm: Page, dest_url: Seq<char>, fm_sub: JVal) -> Result<Seq<char>, Seq<char>> {
    match jvalue::as_str(jvalue::get(fm_sub, "href"@)) {
        None => match page_href_temp_spec(fm) {
            Some(h) => Ok(h),
            None => Err("href of the subsection not found, temp href nether"@),
        },
        Some(h) => match href_base_switch_spec(fm.url@, h, dest_url) {
            Some(v) => Ok(v),
            None => Err("failed to join href to new page"@),
        },
    }
}

fn page_move_subsection_href(fm_page: &Page, fm_subsection: &Json, dest_page: &Page) -> (r: Result<String, String>)
    ensures
        r matches Ok(v) ==> m_sub_href_spec(*fm_page, dest_page.url@, fm_subsection@) == Ok::<Seq<char>, Seq<char>>(v@),
        r matches Err(e) ==> m_sub_href_spec(*fm_page, dest_page.url@, fm_subsection@) == Err::<Seq<char>, Seq<char>>(e@),
{
    let href = match fm_subsection.get("href") {
        Some(h) => h.as_str(),
        None => None,
    };
    match href {
        None => match page_href_temp(fm_page) {
            Some(h) => Ok(h),
            None => Err(String::from_str("href of the subsection not found, temp href nether")),
        },
        Some(h) => match href_base_switch(fm_page.url.as_str(), h, dest_page.url.as_str()) {
            Some(v) => Ok(v),
            None => Err(String::from_str("failed to join href to new page")),
        },
    }
}

/// The content items with their first non-local href rebased, appended to
/// `done`; an item without a text value stops it.
pub open spec fn m_items_spec(fm_url: Seq<char>, dest_url: Seq<char>, items: Seq<JVal>, done: Seq<JVal>) -> Result<Seq<JVal>, Seq<char>>
    decreases items.len(),
{
    if items.len() == 0 {
        Ok(done)
    } else {
        let rest = items.subrange(1, items.len() as int);
        match jvalue::as_str(jvalue::get(items[0], "value"@)) {
            None => Err("content.value not found"@),
            Some(fv) => m_items_spec(
                fm_url,
                dest_url,
                rest,
                done.push(content_item_with(items[0], m_content_convert_spec(fm_url, dest_url, fv, 0))),
            ),
        }
    }
}

/// The contents of a subsection with their hrefs rebased.
pub open spec fn m_contents_spec(fm_url: Seq<char>, dest_url: Seq<char>, fm_sub: JVal) -> Result<JVal, Seq<char>> {
    match jvalue::get(fm_sub, "content"@) {
        JVal::Arr(items) => match m_items_spec(fm_url, dest_url, items, Seq::empty()) {
            Ok(v) => Ok(JVal::Arr(v)),
            Err(e) => Err(e),
        },
        _ => Err("fm_subsection content not found"@),
    }
}

fn page_move_subsection_contents(fm_page: &Page, fm_subsection: &Json, dest_page: &Page) -> (r: Result<Json, String>)
    ensures
        r matches Ok(v) ==> m_contents_spec(fm_page.url@, dest_page.url@, fm_subsection@) == Ok::<JVal, Seq<char>>(v@),
        r matches Err(e) ==> m_contents_spec(fm_page.url@, dest_page.url@, fm_subsection@) == Err::<JVal, Seq<char>>(e@),
{
    let fm_contents = match fm_subsection.get("content") {
        Some(c) => match c.as_array() {
            Some(v) => v,
            None => return Err(String::from_str("fm_subsection content not found")),
        },
        None => return Err(String::from_str("fm_subsection content not found")),
    };
    let ghost items = jvalue::members_view(fm_contents@);
    let mut dest_contents: Vec<Json> = Vec::new();
    assert(items.subrange(0, items.len() as int) =~= items);
    assert(jvalue::members_view(dest_contents@) =~= Seq::<JVal>::empty());
    let mut i: usize = 0;
    while i < fm_contents.len()
        invariant
            i <= fm_contents.len(),
            items == jvalue::members_view(fm_contents@),
            jvalue::get(fm_subsection@, "content"@) == JVal::Arr(items),
            m_items_spec(fm_page.url@, dest_page.url@, items, Seq::empty()) == m_items_spec(
                fm_page.url@,
                dest_page.url@,
                items.subrange(i as int, items.len() as int),
                jvalue::members_view(dest_contents@),
            ),
        decreases fm_contents.len() - i,
    {
        let fm_content = &fm_contents[i];
        assert(items[i as int] == fm_content@);
        let ghost rest = items.subrange(i as int, items.len() as int);
        assert(rest[0] == fm_content@);
        assert(rest.subrange(1, rest.len() as int) =~= items.subrange(i + 1, items.len() as int));
        let fm_value = match fm_content.get("value") {
            Some(v) => match v.as_str() {
                Some(s) => s,
                None => return Err(String::from_str("content.value not found")),
            },
            None => return Err(String::from_str("content.value not found")),
        };
        let dest_value = page_move_subsection_content_href_convert(fm_page, fm_value, dest_page);
        let mut dest_content = Json::new_object();
        let t = match fm_content.get("type") {
            Some(t) => t.deep_clone(),
            None => Json::Null,
        };
        dest_content.set("type", t);
        dest_content.set("value", Json::from_str(dest_value.as_str()));
        let ghost before = jvalue::members_view(dest_contents@);
        dest_contents.push(dest_content);
        assert(jvalue::members_view(dest_contents@) =~= before.push(content_item_with(fm_content@, dest_value@)));
        i = i + 1;
    }
    assert(items.subrange(i as int, items.len() as int) =~= Seq::<JVal>::empty());
    let r = Json::Array(dest_contents);
    assert(r@->Arr_0 =~= jvalue::members_view(dest_contents@));
    Ok(r)
}

/// The subsections of `fm` in order, each with its href and contents
/// rebased, set into `acc` under its id; the first failure stops it, and
/// `acc` then holds those set before it.
pub open spec fn m_subs_spec(fm: Page, dest_url: Seq<char>, es: Seq<(Seq<char>, JVal)>, acc: JVal) -> (JVal, Option<Seq<char>>)
    decreases es.len(),
{
    if es.len() == 0 {
        (acc, None)
    } else {
        let rest = es.subrange(1, es.len() as int);
        let (id, sub) = es[0];
        match m_sub_href_spec(fm, dest_url, sub) {
            Err(e) => (acc, Some(e)),
            Ok(h) => match m_contents_spec(fm.url@, dest_url, sub) {
                Err(e) => (acc, Some(e)),
                Ok(c) => m_subs_spec(
                    fm,
                    dest_url,
                    rest,
                    jvalue::set(acc, id, jvalue::set(jvalue::set(sub, "href"@, jvalue::str_val(h)), "content"@, c)),
                ),
            },
        }
    }
}

/// What `page_move_subsection` leaves of the destination's data, and its
/// failure, if any: it fails, changing nothing, when the destination has
/// no subsection records or more than the top one; otherwise the rebased
/// subsections of `fm` are inserted into the records one by one, and a
/// failure leaves those inserted before it in place.
pub open spec fn m_subsection_spec(fm: Page, dest_url: Seq<char>, dest_data: JVal) -> (JVal, Option<Seq<char>>) {
    match jvalue::get3(dest_data, "data"@, "subsection"@, "data"@) {
        JVal::Obj(e) => if 1 < e.len() {
            (dest_data, Some("dest_page already have subsection"@))
        } else {
            let (a, err) = m_subs_spec(
                fm,
                dest_url,
                entries_of(jvalue::get3(data_of(fm), "data"@, "subsection"@, "data"@)),
                JVal::Obj(e),
            );
            (jvalue::set3(dest_data, "data"@, "subsection"@, "data"@, a), err)
        },
        _ => (dest_data, Some("dest_page subsection data not found"@)),
    }
}

/// Inserting a record into the subsection records held at `acc` is setting
/// the records to `acc` with the record set.
proof fn lemma_insert_subsection(d0: JVal, acc: JVal, id: Seq<char>, v: JVal)
    ensures
        jvalue::set4(jvalue::set3(d0, "data"@, "subsection"@, "data"@, acc), "data"@, "subsection"@, "data"@, id, v)
            == jvalue::set3(d0, "data"@, "subsection"@, "data"@, jvalue::set(acc, id, v)),
{
    let data = jvalue::set3(d0, "data"@, "subsection"@, "data"@, acc);
    jvalue::lemma_get3_set3(d0, "data"@, "subsection"@, "data"@, acc);
    jvalue::lemma_set3_set3(d0, "data"@, "subsection"@, "data"@, acc, jvalue::set(acc, id, v));
    assert(jvalue::set4(data, "data"@, "subsection"@, "data"@, id, v) == jvalue::set3(
        data,
        "data"@,
        "subsection"@,
        "data"@,
        jvalue::set(jvalue::get3(data, "data"@, "subsection"@, "data"@), id, v),
    ));
}

#[verifier::rlimit(40)]
fn page_move_subsection(fm_page: &Page, dest_page: &mut Page) -> (r: Result<(), String>)
    requires
        fm_page.page_json is Some,
        old(dest_page).page_json is Some,
    ensures
        ({
            let (d, err) = m_subsection_spec(*fm_page, old(dest_page).url@, data_of(*old(dest_page)));
            &&& data_of(*final(dest_page)) == d
            &&& err is None ==> r is Ok
            &&& err matches Some(e) ==> (r matches Err(x) && x@ == e)
        }),
        final(dest_page).url == old(dest_page).url,
        final(dest_page).file == old(dest_page).file,
        final(dest_page).page_json is Some,
        final(dest_page).page_json->Some_0.rev == old(dest_page).page_json->Some_0.rev,
        final(dest_page).page_json->Some_0.rev_next == old(dest_page).page_json->Some_0.rev_next,
{
    let dest_page_json = match dest_page.page_json.as_ref() {
        Some(v) => v.value(),
        None => return Err(String::from_str("dest_page subsection data not found")),
    };
    let dest_subsections = match dest_page_json.get3("data", "subsection", "data") {
        Some(d) => match d.as_object() {
            Some(v) => v,
            None => return Err(String::from_str("dest_page subsection data not found")),
        },
        None => return Err(String::from_str("dest_page subsection data not found")),
    };
    if 1 < dest_subsections.len() {
        return Err(String::from_str("dest_page already have subsection"));
    }
    let ghost d0 = data_of(*dest_page);
    let ghost acc0 = jvalue::get3(d0, "data"@, "subsection"@, "data"@);
    let ghost mut acc = acc0;
    proof {
        jvalue::lemma_set3_same(d0, "data"@, "subsection"@, "data"@);
    }
    let fm_page_json = match fm_page.page_json.as_ref() {
        Some(v) => v.value(),
        None => return Err(String::from_str("dest_page subsection data not found")),
    };
    let fm_subsections = object_entries(fm_page_json.get3("data", "subsection", "data"));
    let ghost es = jvalue::entries_view(fm_subsections@);
    let ghost whole = m_subs_spec(*fm_page, dest_page.url@, es, acc0);
    assert(m_subsection_spec(*fm_page, old(dest_page).url@, d0) == (
        jvalue::set3(d0, "data"@, "subsection"@, "data"@, whole.0),
        whole.1,
    ));
    let mut i: usize = 0;
    assert(es.subrange(0, es.len() as int) =~= es);
    while i < fm_subsections.len()
        invariant
            i <= fm_subsections.len(),
            dest_page.url == old(dest_page).url,
            dest_page.file == old(dest_page).file,
            dest_page.page_json is Some,
            dest_page.page_json->Some_0.rev == old(dest_page).page_json->Some_0.rev,
            dest_page.page_json->Some_0.rev_next == old(dest_page).page_json->Some_0.rev_next,
            data_of(*dest_page) == jvalue::set3(d0, "data"@, "subsection"@, "data"@, acc),
            d0 == data_of(*old(dest_page)),
            m_subsection_spec(*fm_page, old(dest_page).url@, d0) == (
                jvalue::set3(d0, "data"@, "subsection"@, "data"@, whole.0),
                whole.1,
            ),
            es == jvalue::entries_view(fm_subsections@),
            whole == m_subs_spec(*fm_page, dest_page.url@, es.subrange(i as int, es.len() as int), acc),
        decreases fm_subsections.len() - i,
    {
        assert(es[i as int] == (fm_subsections@[i as int].0@, fm_subsections@[i as int].1@));
        let ghost rest = es.subrange(i as int, es.len() as int);
        assert(rest[0] == es[i as int]);
        assert(rest.subrange(1, rest.len() as int) =~= es.subrange(i + 1, es.len() as int));
        let id = &fm_subsections[i].0;
        let fm_subsection = &fm_subsections[i].1;
        let href = match page_move_subsection_href(fm_page, fm_subsection, dest_page) {
            Ok(v) => v,
            Err(e) => return Err(e),
        };
        let content = match page_move_subsection_contents(fm_page, fm_subsection, dest_page) {
            Ok(v) => v,
            Err(e) => return Err(e),
        };
        let mut dest_subsection = fm_subsection.deep_clone();
        dest_subsection.set("href", Json::from_str(href.as_str()));
        dest_subsection.set("content", content);
        let ghost data = data_of(*dest_page);
        let ghost acc1 = jvalue::set(acc, id@, dest_subsection@);
        proof {
            lemma_insert_subsection(d0, acc, id@, dest_subsection@);
        }
        match dest_page.page_json.as_mut() {
            Some(v) => {
                v.page_json.set4("data", "subsection", "data", id.as_str(), dest_subsection);
            },
            None => {},
        }
        proof {
            acc = acc1;
        }
        i = i + 1;
    }
    assert(es.subrange(i as int, es.len() as int) =~= Seq::<(Seq<char>, JVal)>::empty());
    Ok(())
}

/// The href references of `fm` set over `acc` in order.
pub open spec fn m_refs_fold(es: Seq<(Seq<char>, JVal)>, acc: JVal) -> JVal
    decreases es.len(),
{
    if es.len() == 0 {
        acc
    } else {
        m_refs_fold(es.subrange(1, es.len() as int), jvalue::set(acc, es[0].0, es[0].1))
    }
}

/// What `page_move_href_reference` makes of the destination's data: the
/// href references of `fm` added over the destination's own (`Err` when it
/// has none); unchanged when `fm` has none.
pub open spec fn m_href_reference_spec(fm_data: JVal, dest_data: JVal) -> Result<JVal, Seq<char>> {
    match jvalue::get2(fm_data, "data"@, "href_reference"@) {
        JVal::Obj(es) => match jvalue::get2(dest_data, "data"@, "href_reference"@) {
            JVal::Obj(d) => Ok(jvalue::set2(dest_data, "data"@, "href_reference"@, m_refs_fold(es, JVal::Obj(d)))),
            _ => Err("dest_page href_reference data not found"@),
        },
        _ => Ok(dest_data),
    }
}

fn page_move_href_reference(fm_page: &Page, dest_page: &mut Page) -> (r: Result<(), String>)
    requires
        fm_page.page_json is Some,
        old(dest_page).page_json is Some,
    ensures
        m_href_reference_spec(data_of(*fm_page), data_of(*old(dest_page))) matches Ok(d)
            ==> r is Ok && data_of(*final(dest_page)) == d,
        m_href_reference_spec(data_of(*fm_page), data_of(*old(dest_page))) matches Err(e)
            ==> (r matches Err(x) && x@ == e),
        r is Err ==> *final(dest_page) == *old(dest_page),
        final(dest_page).url == old(dest_page).url,
        final(dest_page).file == old(dest_page).file,
        final(dest_page).page_json is Some,
        final(dest_page).page_json->Some_0.rev == old(dest_page).page_json->Some_0.rev,
        final(dest_page).page_json->Some_0.rev_next == old(dest_page).page_json->Some_0.rev_next,
{
    let fm_page_json = match fm_page.page_json.as_ref() {
        Some(v) => v.value(),
        None => return Ok(()),
    };
    let fm_href_reference = match fm_page_json.get2("data", "href_reference") {
        Some(v) => match v.as_object() {
            Some(o) => o,
            None => return Ok(()),
        },
        None => return Ok(()),
    };
    let mut dest_href_reference = match dest_page.page_json.as_ref() {
        Some(v) => match v.value().get2("data", "href_reference") {
            Some(x) => match x.as_object() {
                Some(_) => x.deep_clone(),
                None => return Err(String::from_str("dest_page href_reference data not found")),
            },
            None => return Err(String::from_str("dest_page href_reference data not found")),
        },
        None => return Err(String::from_str("dest_page href_reference data not found")),
    };
    let ghost es = jvalue::entries_view(fm_href_reference@);
    let ghost acc0 = dest_href_reference@;
    let mut i: usize = 0;
    assert(es.subrange(0, es.len() as int) =~= es);
    while i < fm_href_reference.len()
        invariant
            i <= fm_href_reference.len(),
            es == jvalue::entries_view(fm_href_reference@),
            m_refs_fold(es, acc0) == m_refs_fold(es.subrange(i as int, es.len() as int), dest_href_reference@),
        decreases fm_href_reference.len() - i,
    {
        assert(es[i as int] == (fm_href_reference@[i as int].0@, fm_href_reference@[i as int].1@));
        let ghost rest = es.subrange(i as int, es.len() as int);
        assert(rest[0] == es[i as int]);
        assert(rest.subrange(1, rest.len() as int) =~= es.subrange(i + 1, es.len() as int));
        let v = fm_href_reference[i].1.deep_clone();
        dest_href_reference.set(fm_href_reference[i].0.as_str(), v);
        i = i + 1;
    }
    assert(es.subrange(i as int, es.len() as int) =~= Seq::<(Seq<char>, JVal)>::empty());
    match dest_page.page_json.as_mut() {
        Some(v) => {
            v.page_json.set2("data", "href_reference", dest_href_reference);
        },
        None => {},
    }
    Ok(())
}

/// The destination's data after the three steps of the first way to move a
/// page, or the first failure.
pub open spec fn m_steps_spec(parent: Option<Page>, fm: Page, dest: Page) -> Result<JVal, Seq<char>> {
    match m_navi_spec(parent, fm, data_of(dest)) {
        Err(e) => Err(e),
        Ok(d1) => {
            let (d2, err) = m_subsection_spec(fm, dest.url@, d1);
            match err {
                Some(e) => Err(e),
                None => m_href_reference_spec(data_of(fm), d2),
            }
        },
    }
}

/// The destination's data where the three steps of the first way to move a
/// page stop: after all three, or as the failing step leaves it (the
/// navigation and href reference steps change nothing when they fail; the
/// subsection step keeps the subsections it inserted before the failure).
pub open spec fn m_steps_left_spec(parent: Option<Page>, fm: Page, dest: Page) -> JVal {
    match m_navi_spec(parent, fm, data_of(dest)) {
        Err(_) => data_of(dest),
        Ok(d1) => {
            let (d2, err) = m_subsection_spec(fm, dest.url@, d1);
            match err {
                Some(_) => d2,
                None => match m_href_reference_spec(data_of(fm), d2) {
                    Ok(d3) => d3,
                    Err(_) => d2,
                },
            }
        },
    }
}

/// Moves `fm_page` to `dest_page` (below `parent_page`, if any): the
/// destination gets its navigation, the subsections with their hrefs
/// rebased and the href references of `fm_page`, and is written anew; `Ok`
/// gives the name of its backup.  The caller has saved the destination's
/// current content (`page_current_save`) and writes the files.
pub fn page_move(fm_page: &mut Page, dest_page: &mut Page, parent_page: Option<&Page>) -> (r: Result<String, String>)
    ensures
        old(fm_page).page_json is None ==> (r matches Err(e) && e@ == "fm_page.page_json not found"@),
        old(fm_page).page_json is Some && old(dest_page).page_json is None ==> (r matches Err(e) && e@
            == "dest_page.page_json not found"@),
        old(fm_page).page_json is Some && old(dest_page).page_json is Some ==> ({
            let parent = match parent_page {
                Some(p) => Some(*p),
                None => None,
            };
            let pj = old(dest_page).page_json->Some_0;
            match m_steps_spec(parent, *old(fm_page), *old(dest_page)) {
                Err(e) => r matches Err(x) && x@ == e && final(dest_page).page_json is Some
                    && data_of(*final(dest_page)) == m_steps_left_spec(parent, *old(fm_page), *old(dest_page)),
                Ok(d3) => if update_fails(pj.rev, pj.rev_next, d3) {
                    r matches Err(x) && x@ == "page_json_update_save was failed"@
                        && final(dest_page).page_json is Some && data_of(*final(dest_page)) == d3
                } else {
                    r matches Ok(name) && super::update_saved(
                        old(dest_page).file.filename_spec(),
                        pj.rev,
                        pj.rev_next,
                        d3,
                        *final(dest_page),
                        name@,
                    )
                },
            }
        }),
        *final(fm_page) == *old(fm_page),
{
    if fm_page.page_json.is_none() {
        return Err(String::from_str("fm_page.page_json not found"));
    }
    if dest_page.page_json.is_none() {
        return Err(String::from_str("dest_page.page_json not found"));
    }
    if let Err(e) = page_move_navi_set(parent_page, fm_page, dest_page) {
        return Err(e);
    }
    if let Err(e) = page_move_subsection(fm_page, dest_page) {
        return Err(e);
    }
    if let Err(e) = page_move_href_reference(fm_page, dest_page) {
        return Err(e);
    }
    match dest_page.page_json_update_save() {
        Ok(v) => Ok(v),
        Err(_) => Err(String::from_str("page_json_update_save was failed")),
    }
}

// ---------------------------------------------------------------------------
// Navigation of a new or moved page
// ---------------------------------------------------------------------------

/// The data of a page, which the callers know it has.
pub open spec fn data_of(p: Page) -> JVal {
    p.page_json->Some_0.page_json@
}

/// The text of a string value, or `dflt`.
pub open spec fn str_or(v: JVal, dflt: Seq<char>) -> Seq<char> {
    match jvalue::as_str(v) {
        Some(s) => s,
        None => dflt,
    }
}

/// A navigation item `[title, href]`.
pub open spec fn navi_pair(title: Seq<char>, href: Seq<char>) -> JVal {
    JVal::Arr(seq![jvalue::str_val(title), jvalue::str_val(href)])
}

/// A navigation item of the parent seen from the child: its title (`no
/// title` when it has none) and its href rebased (empty when it has none
/// or it does not resolve).
pub open spec fn navi_inherit_item(item: JVal, parent_url: Seq<char>, child_url: Seq<char>) -> JVal {
    navi_pair(
        str_or(jvalue::at(item, 0), "no title"@),
        match jvalue::as_str(jvalue::at(item, 1)) {
            Some(ph) => match href_base_switch_spec(parent_url, ph, child_url) {
                Some(h) => h,
                None => Seq::empty(),
            },
            None => Seq::empty(),
        },
    )
}

/// The navigation of the parent seen from the child.
pub open spec fn navi_inherit_spec(items: Seq<JVal>, parent_url: Seq<char>, child_url: Seq<char>) -> Seq<JVal> {
    Seq::new(items.len(), |i: int| navi_inherit_item(items[i], parent_url, child_url))
}

/// What `navi_parent_inherit` gives.
pub open spec fn navi_parent_inherit_spec(parent: Page, child_url: Seq<char>) -> Result<JVal, Seq<char>> {
    if parent.page_json is None {
        Err("navi_parent_inherit page_json.as_ref() failed"@)
    } else {
        match jvalue::get2(data_of(parent), "data"@, "navi"@) {
            JVal::Arr(items) => Ok(JVal::Arr(navi_inherit_spec(items, parent.url@, child_url))),
            _ => Err("navi_parent_inherit page_json.data.navi failed"@),
        }
    }
}

/// A child inherits the parent's navigation item by item, each link
/// still leading where it led from the parent: an item whose href is a
/// text that resolves against the parent's URL (the empty href too, which
/// resolves to the parent page itself) gets the href from the child's URL
/// to that same target (its path when no relative href reaches it), and
/// keeps its title.
pub proof fn law_inherited_navi_leads_to_same_target(
    parent: Page,
    child_url: Seq<char>,
    i: int,
    ph: Seq<char>,
    t: Seq<char>,
    title: Seq<char>,
)
    ensures
        (parent.page_json is Some && jvalue::get2(data_of(parent), "data"@, "navi"@) is Arr) ==> ({
            let items = jvalue::get2(data_of(parent), "data"@, "navi"@)->Arr_0;
            let r = navi_parent_inherit_spec(parent, child_url);
            &&& r is Ok && r->Ok_0 is Arr && r->Ok_0->Arr_0.len() == items.len()
            &&& (0 <= i < items.len() && jvalue::as_str(jvalue::at(items[i], 1)) == Some(ph)
                && url_util::url_join_spec(parent.url@, ph) == Some(t)) ==> jvalue::at(r->Ok_0->Arr_0[i], 1)
                == jvalue::str_val(
                match url_util::url_relative_spec(child_url, t) {
                    Some(v) => v,
                    None => url_util::url_path_spec(t),
                },
            )
            &&& (0 <= i < items.len() && jvalue::as_str(jvalue::at(items[i], 0)) == Some(title)) ==> jvalue::at(
                r->Ok_0->Arr_0[i],
                0,
            ) == jvalue::str_val(title)
        }),
{
}

fn navi_parent_inherit(parent_page: &Page, child_page: &Page) -> (r: Result<Json, String>)
    ensures
        r matches Ok(v) ==> navi_parent_inherit_spec(*parent_page, child_page.url@) == Ok::<JVal, Seq<char>>(v@),
        r matches Err(e) ==> navi_parent_inherit_spec(*parent_page, child_page.url@) == Err::<JVal, Seq<char>>(e@),
{
    let parent_page_json = match parent_page.page_json.as_ref() {
        Some(v) => v.value(),
        None => return Err(String::from_str("navi_parent_inherit page_json.as_ref() failed")),
    };
    let parent_navi_jsv = match parent_page_json.get2("data", "navi") {
        Some(n) => match n.as_array() {
            Some(v) => v,
            None => return Err(String::from_str("navi_parent_inherit page_json.data.navi failed")),
        },
        None => return Err(String::from_str("navi_parent_inherit page_json.data.navi failed")),
    };
    let ghost items = jvalue::members_view(parent_navi_jsv@);
    let mut child_navi: Vec<Json> = Vec::new();
    let mut i: usize = 0;
    while i < parent_navi_jsv.len()
        invariant
            i <= parent_navi_jsv.len(),
            items == jvalue::members_view(parent_navi_jsv@),
            child_navi.len() == i,
            forall|k: int|
                0 <= k < i ==> (#[trigger] child_navi@[k])@ == navi_inherit_item(
                    items[k],
                    parent_page.url@,
                    child_page.url@,
                ),
        decreases parent_navi_jsv.len() - i,
    {
        let navi = &parent_navi_jsv[i];
        assert(items[i as int] == navi@);
        proof {
            reveal_strlit("no title");
            reveal_strlit("");
        }
        let title = match navi.at(0) {
            Some(t) => match t.as_str() {
                Some(v) => v,
                None => "no title",
            },
            None => "no title",
        };
        let href = match navi.at(1) {
            Some(h) => match h.as_str() {
                Some(parent_href) => match href_base_switch(
                    parent_page.url.as_str(),
                    parent_href,
                    child_page.url.as_str(),
                ) {
                    Some(v) => v,
                    None => String::new(),
                },
                None => String::new(),
            },
            None => String::new(),
        };
        child_navi.push(Json::pair(title, href.as_str()));
        i = i + 1;
    }
    let r = Json::Array(child_navi);
    assert(r@->Arr_0 =~= navi_inherit_spec(items, parent_page.url@, child_page.url@));
    Ok(r)
}

/// What `navi_parent_inherit_and_chld` gives: the parent's navigation seen
/// from the child, and an item for the child itself (its title, `no title`
/// when it has none, and an empty href).
pub open spec fn navi_inherit_and_child_spec(parent: Page, child_url: Seq<char>, child_data: Option<JVal>) -> Result<JVal, Seq<char>> {
    match navi_parent_inherit_spec(parent, child_url) {
        Err(e) => Err(e),
        Ok(navi) => match child_data {
            None => Err("child_page.page_json not found"@),
            Some(d) => Ok(
                JVal::Arr(
                    navi->Arr_0.push(
                        navi_pair(
                            str_or(jvalue::get3(d, "data"@, "page"@, "title"@), "no title"@),
                            Seq::empty(),
                        ),
                    ),
                ),
            ),
        },
    }
}

fn navi_parent_inherit_and_chld(parent_page: &Page, child_page: &Page) -> (r: Result<Json, String>)
    ensures
        r matches Ok(v) ==> navi_inherit_and_child_spec(*parent_page, child_page.url@, super::pj_view(child_page.page_json)) == Ok::<JVal, Seq<char>>(v@),
        r matches Err(e) ==> navi_inherit_and_child_spec(*parent_page, child_page.url@, super::pj_view(child_page.page_json)) == Err::<JVal, Seq<char>>(e@),
{
    let mut child_navi = match navi_parent_inherit(parent_page, child_page) {
        Ok(v) => v,
        Err(e) => return Err(e),
    };
    let child_page_json = match &child_page.page_json {
        Some(v) => v.value(),
        None => return Err(String::from_str("child_page.page_json not found")),
    };
    proof {
        reveal_strlit("no title");
        reveal_strlit("");
        assert(""@ =~= Seq::<char>::empty());
    }
    let title = match child_page_json.get3("data", "page", "title") {
        Some(t) => match t.as_str() {
            Some(s) => s,
            None => "no title",
        },
        None => "no title",
    };
    let _res = child_navi.push(Json::pair(title, ""));
    Ok(child_navi)
}

// ---------------------------------------------------------------------------
// Sub pages
// ---------------------------------------------------------------------------

/// The bytes of a file's content, when there are any.
pub open spec fn opt_bytes(content: Option<Vec<u8>>) -> Option<Seq<u8>> {
    match content {
        Some(b) => Some(b@),
        None => None,
    }
}

/// The data that `Page::new` gives a page whose file holds `bytes`.
pub open spec fn new_page_data(bytes: Option<Seq<u8>>) -> JVal {
    match super::page_file::text_of(bytes) {
        Some(t) => match super::content_page_json(t) {
            Some(v) => v,
            None => pju::page_json_blank_spec(),
        },
        None => pju::page_json_blank_spec(),
    }
}

/// A sub page made where a file exists already keeps that file's
/// revision: giving the new page its title and its navigation leaves the
/// revision of the data as it was, so the backups already written are not
/// overwritten.
pub proof fn law_sub_page_keeps_revision(bytes: Option<Seq<u8>>, title: Seq<char>, navi: JVal)
    ensures
        super::page_json::rev_of(
            jvalue::set2(
                jvalue::set3(new_page_data(bytes), "data"@, "page"@, "title"@, jvalue::str_val(title)),
                "data"@,
                "navi"@,
                navi,
            ),
        ) == super::page_json::rev_of(new_page_data(bytes)),
{
    reveal_strlit("title");
    reveal_strlit("rev");
    reveal_strlit("navi");
    reveal_strlit("page");
    assert("title"@ != "rev"@) by {
        assert("title"@.len() != "rev"@.len());
    }
    assert("navi"@ != "page"@) by {
        assert("navi"@[0] != "page"@[0]);
    }
    let d = new_page_data(bytes);
    let d1 = jvalue::get(d, "data"@);
    let p1 = jvalue::get(d1, "page"@);
    let titled = jvalue::set3(d, "data"@, "page"@, "title"@, jvalue::str_val(title));
    jvalue::lemma_get_set(d, "data"@, jvalue::set2(d1, "page"@, "title"@, jvalue::str_val(title)));
    jvalue::lemma_get_set(d1, "page"@, jvalue::set(p1, "title"@, jvalue::str_val(title)));
    jvalue::lemma_get_set_other(p1, "title"@, "rev"@, jvalue::str_val(title));
    let t1 = jvalue::get(titled, "data"@);
    jvalue::lemma_get_set(titled, "data"@, jvalue::set(t1, "navi"@, navi));
    jvalue::lemma_get_set_other(t1, "navi"@, "page"@, navi);
}

/// Where a new sub page goes: `Err` with the reason when its title (trimmed)
/// is empty, its href (trimmed) starts with `#` or is empty, or the href
/// does not resolve against the parent's URL.
pub open spec fn page_sub_new_url_spec(parent_url: Seq<char>, title: Seq<char>, href: Seq<char>) -> Result<Seq<char>, Seq<char>> {
    let t = text::trim_spec(title);
    let h = text::trim_spec(href);
    if t.len() == 0 {
        Err("no child title"@)
    } else if text::starts_with_spec(h, "#"@) {
        Err("child href starts with #"@)
    } else if h.len() == 0 {
        Err("child href.len is 0"@)
    } else {
        match url_util::url_join_spec(parent_url, h) {
            Some(u) => Ok(u),
            None => Err("parent_url.join failed"@),
        }
    }
}

/// The URL of a new sub page of the parent, or why there is none.  The
/// caller reads the file of that URL (`Page::filename_for`) for
/// `page_sub_new`.
pub fn page_sub_new_url(parent_page: &Page, child_title: &str, child_href: &str) -> (r: Result<String, String>)
    ensures
        r matches Ok(u) ==> page_sub_new_url_spec(parent_page.url@, child_title@, child_href@) == Ok::<Seq<char>, Seq<char>>(u@),
        r matches Err(e) ==> page_sub_new_url_spec(parent_page.url@, child_title@, child_href@) == Err::<Seq<char>, Seq<char>>(e@),
{
    let child_title = text::trim(child_title);
    if child_title.as_str().unicode_len() == 0 {
        return Err(String::from_str("no child title"));
    }
    let child_href = text::trim(child_href);
    if text::starts_with(child_href.as_str(), "#") {
        return Err(String::from_str("child href starts with #"));
    }
    if child_href.as_str().unicode_len() == 0 {
        return Err(String::from_str("child href.len is 0"));
    }
    match url_util::join(parent_page.url.as_str(), child_href.as_str()) {
        Some(u) => Ok(u),
        None => Err(String::from_str("parent_url.join failed")),
    }
}

/// A new sub page of the parent, titled `child_title` (trimmed), at
/// `child_href` (trimmed) relative to the parent, its file holding
/// `child_content` (what the file at that URL holds, `None` when there is
/// none): it keeps the data that the file holds (its revision with it), gets
/// the title, and gets the parent's navigation seen from it followed by an
/// item for itself.  Nothing is saved.
pub fn page_sub_new(parent_page: &Page, child_title: &str, child_href: &str, child_content: Option<Vec<u8>>) -> (r: Result<Page, String>)
    ensures
        page_sub_new_url_spec(parent_page.url@, child_title@, child_href@) matches Err(e) ==> (r matches Err(x) && x@ == e),
        page_sub_new_url_spec(parent_page.url@, child_title@, child_href@) matches Ok(url) ==> {
            let titled = jvalue::set3(
                new_page_data(opt_bytes(child_content)),
                "data"@,
                "page"@,
                "title"@,
                jvalue::str_val(text::trim_spec(child_title@)),
            );
            match navi_inherit_and_child_spec(*parent_page, url, Some(titled)) {
                Err(e) => r matches Err(x) && x@ == e,
                Ok(navi) => r matches Ok(child) && {
                    &&& child.url@ == url
                    &&& child.file.filename_spec() == super::filename_of(url)
                    &&& child.file.bytes_spec() == opt_bytes(child_content)
                    &&& !child.file.debug_spec()
                    &&& child.page_json matches Some(pj) && pj.rev is None && pj.rev_next is None
                    &&& data_of(child) == jvalue::set2(titled, "data"@, "navi"@, navi)
                },
            }
        },
{
    let child_url = match page_sub_new_url(parent_page, child_title, child_href) {
        Ok(u) => u,
        Err(e) => return Err(e),
    };
    let child_title = text::trim(child_title);
    let ghost content = opt_bytes(child_content);
    let mut child_page = Page::new(child_url.as_str(), child_content);
    assert(data_of(child_page) == new_page_data(content));
    match child_page.page_json.as_mut() {
        Some(v) => {
            v.page_json.set3("data", "page", "title", Json::from_str(child_title.as_str()));
        },
        None => return Err(String::from_str("child_page.page_json.as_mut failed")),
    }
    let ghost titled = data_of(child_page);
    let child_navi = match navi_parent_inherit_and_chld(parent_page, &child_page) {
        Ok(v) => v,
        Err(e) => return Err(e),
    };
    match child_page.page_json.as_mut() {
        Some(v) => {
            v.page_json.set2("data", "navi", child_navi);
        },
        None => return Err(String::from_str("child_page.page_json.as_mut failed")),
    }
    Ok(child_page)
}

} // verus!
