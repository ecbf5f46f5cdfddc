//! Pages: their files, their data, and what is done to them.
pub mod page_json_utility;
pub mod page_json;
pub mod dom_to_json_utility;
pub mod page_file;
pub mod dom;
pub mod page_dom_utility;
pub mod page_dom;
pub mod json_to_dom;
pub mod dom_to_json;
pub mod page_system_update;
pub mod page_utility;

use vstd::prelude::*;
use crate::jvalue::{self, Json, JVal};
use crate::text;
use crate::url_util;
use self::page_file::PageFile;
use self::page_json::PageJson;
use self::page_json_utility as pju;

verus! {

/// A page: its URL (as its serialization), its file, and its data when the
/// file holds any.
pub struct Page {
    pub url: String,
    pub file: PageFile,
    pub page_json: Option<PageJson>,
}

/// The name of the file of a page whose URL has the path `uri`.
pub open spec fn page_filename_spec(uri: Seq<char>) -> Seq<char> {
    "pages"@ + uri
}

/// The name of the file of the page at a URL.
pub open spec fn filename_of(url: Seq<char>) -> Seq<char> {
    page_filename_spec(url_util::url_path_spec(url))
}

/// The page data that a page text holds, as `page_json_value_from_content`
/// finds it.
pub open spec fn content_page_json(t: Seq<char>) -> Option<JVal> {
    match pju::page_json_range(t) {
        Some(g) => pju::value_from_str_spec(
            pju::page_json_str_decode_spec(
                vstd::utf8::decode_utf8(vstd::utf8::encode_utf8(t).subrange(g.0, g.1)),
            ),
        ),
        None => None,
    }
}

/// Whether `p` is the page at `url` whose file holds `bytes` (`None`: the
/// file could not be read), as `Page::from` makes it: its data is what the
/// content holds, if anything, with no revision read yet.
pub open spec fn is_page_from(p: Page, url: Seq<char>, bytes: Option<Seq<u8>>) -> bool {
    &&& p.url@ == url
    &&& p.file.filename_spec() == filename_of(url)
    &&& p.file.bytes_spec() == bytes
    &&& !p.file.debug_spec()
    &&& p.file.str_spec() == page_file::text_of(bytes)
    &&& pj_view(p.page_json) == (match p.file.str_spec() {
        Some(t) => content_page_json(t),
        None => None,
    })
    &&& (p.page_json matches Some(pj) ==> pj.rev is None && pj.rev_next is None)
}

/// The data of a page, when it has any.
pub open spec fn pj_view(p: Option<PageJson>) -> Option<JVal> {
    match p {
        Some(pj) => Some(pj.page_json@),
        None => None,
    }
}

/// The answer to a move request.
pub const PAGE_MOVE2_REPLY: &'static str = r#"{"res":"page5.rs page_move2"}"#;

/// What a move request names, or why it is refused.
pub open spec fn page_move2_request_spec(url: Seq<char>, req: JVal) -> Result<(Option<Seq<char>>, Seq<char>), Seq<char>> {
    match jvalue::as_str(jvalue::get(req, "parent_url"@)) {
        None => Err("page5.page_move2 req.parent_url failed"@),
        Some(p) => {
            let pt = text::trim_spec(p);
            let parent = if pt.len() == 0 {
                Ok(None)
            } else {
                match url_util::url_join_spec(url, pt) {
                    Some(u) => Ok(Some(u)),
                    None => Err("page5.page_move2 parent_url join failed"@),
                }
            };
            match parent {
                Err(e) => Err(e),
                Ok(pu) => match jvalue::as_str(jvalue::get(req, "dest_url"@)) {
                    None => Err("page5.page_move2 req.dest_url failed"@),
                    Some(d) => match url_util::url_join_spec(url, d) {
                        None => Err("page5.page_move2 dest_url join failed"@),
                        Some(du) => Ok((pu, du)),
                    },
                },
            }
        },
    }
}

/// The pattern of a backup file's name: it ends in digits.
pub const BACKUP_NAME_PATTERN: &'static str = r"\d+$";

/// The revision that `PageJson::rev` gives for the remembered revision and
/// the data.
pub open spec fn rev_spec_of(rev: Option<u32>, data: JVal) -> u32 {
    match rev {
        Some(r) => r,
        None => page_json::rev_of(data),
    }
}

/// The revision that the next save writes, for the remembered revisions and
/// the data.
pub open spec fn next_rev_of(rev: Option<u32>, rev_next: Option<u32>, data: JVal) -> u32 {
    match rev_next {
        Some(n) => n,
        None => (rev_spec_of(rev, data) + 1) as u32,
    }
}

/// The data as the next save writes it: with the next revision recorded.
pub open spec fn data_for_save(rev: Option<u32>, rev_next: Option<u32>, data: JVal) -> JVal {
    if rev_next is Some {
        data
    } else {
        jvalue::set3(data, "data"@, "page"@, "rev"@, jvalue::u32_val(next_rev_of(rev, rev_next, data)))
    }
}

/// Whether `page_json_update_save` fails on a page with the revisions and
/// data: when no next revision is remembered and the revision can go no
/// higher.
pub open spec fn update_fails(rev: Option<u32>, rev_next: Option<u32>, data: JVal) -> bool {
    rev_next is None && rev_spec_of(rev, data) >= u32::MAX
}

/// What `page_json_update_save` leaves, when it succeeds, of a page with the
/// file name, revisions and data: the backup name `name`, the data with the
/// next revision, and the file's text the HTML page made from it.
pub open spec fn update_saved(
    filename: Seq<char>,
    rev: Option<u32>,
    rev_next: Option<u32>,
    data: JVal,
    after: Page,
    name: Seq<char>,
) -> bool {
    let d2 = data_for_save(rev, rev_next, data);
    &&& name == filename + "."@ + text::dec_spec(next_rev_of(rev, rev_next, data) as nat)
    &&& after.page_json matches Some(pj) && pj.page_json@ == d2
    &&& after.file.str_spec() == Some(page_dom::to_html_spec(json_to_dom::json_to_dom_spec(d2)))
    &&& after.file.filename_spec() == filename
}

/// Each save moves the page's revision on by one: when no next revision
/// is remembered and the save goes through, the data it writes records the
/// revision after the one the page was read with, and the backup it names
/// carries that revision.
pub proof fn law_save_moves_revision_on(filename: Seq<char>, rev: Option<u32>, data: JVal, after: Page, name: Seq<char>)
    requires
        !update_fails(rev, None, data),
        update_saved(filename, rev, None, data, after, name),
    ensures
        page_json::rev_of(page_utility::data_of(after)) == rev_spec_of(rev, data) + 1,
        name == filename + "."@ + text::dec_spec((rev_spec_of(rev, data) + 1) as nat),
{
    let n = next_rev_of(rev, None, data);
    let d1 = jvalue::get(data, "data"@);
    let d2 = jvalue::get(d1, "page"@);
    jvalue::lemma_get_set(data, "data"@, jvalue::set2(d1, "page"@, "rev"@, jvalue::u32_val(n)));
    jvalue::lemma_get_set(d1, "page"@, jvalue::set(d2, "rev"@, jvalue::u32_val(n)));
    jvalue::lemma_get_set(d2, "rev"@, jvalue::u32_val(n));
}

/// A page written anew from its data carries that data: its text is the
/// HTML of the page made from the data it now has, and the page-data span
/// of that page holds the data's JSON text.
pub proof fn law_saved_page_carries_data(
    filename: Seq<char>,
    rev: Option<u32>,
    rev_next: Option<u32>,
    data: JVal,
    after: Page,
    name: Seq<char>,
)
    requires
        update_saved(filename, rev, rev_next, data, after, name),
    ensures
        after.file.str_spec() == Some(page_dom::to_html_spec(json_to_dom::json_to_dom_spec(page_utility::data_of(after)))),
        page_dom::span_page_json_str_spec(json_to_dom::json_to_dom_spec(page_utility::data_of(after))) == Some(
            jvalue::json_text(page_utility::data_of(after)),
        ),
{
    json_to_dom::law_page_carries_data(page_utility::data_of(after));
}

/// The name of the file of a page whose URL has the path `uri`.
fn page_filename(uri: &str) -> (r: String)
    ensures
        r@ == page_filename_spec(uri@),
{
    text::concat("pages", uri)
}

impl Page {
    fn debug_mode() -> (r: bool)
        ensures
            !r,
    {
        false
    }

    /// The name of the file of the page at `url`: the one whose content
    /// `from` and `new` are to be given.
    pub fn filename_for(url: &str) -> (r: String)
        ensures
            r@ == filename_of(url@),
    {
        let p = url_util::path(url);
        page_filename(p.as_str())
    }

    /// The page at `url`, its file holding `content` (`None` when the file
    /// could not be read); its data is what the content holds, if any.
    pub fn from(url: &str, content: Option<Vec<u8>>) -> (r: Page)
        ensures
            is_page_from(r, url@, page_utility::opt_bytes(content)),
    {
        let filename = Page::filename_for(url);
        let file = PageFile::open(filename.as_str(), content, Page::debug_mode());
        let page_json = match file.content_str() {
            Some(s) => match pju::page_json_value_from_content(s) {
                Some(v) => Some(PageJson::new(v)),
                None => None,
            },
            None => None,
        };
        Page { url: String::from_str(url), file, page_json }
    }

    /// The page at `url` as `from` makes it, with blank data when its content
    /// holds none.
    pub fn new(url: &str, content: Option<Vec<u8>>) -> (r: Page)
        ensures
            r.url@ == url@,
            r.file.filename_spec() == filename_of(url@),
            r.file.bytes_spec() == (match content {
                Some(b) => Some(b@),
                None => None::<Seq<u8>>,
            }),
            !r.file.debug_spec(),
            r.file.str_spec() == page_file::text_of(r.file.bytes_spec()),
            pj_view(r.page_json) == Some(
                match r.file.str_spec() {
                    Some(t) => match content_page_json(t) {
                        Some(v) => v,
                        None => pju::page_json_blank_spec(),
                    },
                    None => pju::page_json_blank_spec(),
                },
            ),
            r.page_json matches Some(pj) ==> pj.rev is None && pj.rev_next is None,
    {
        let mut page = Page::from(url, content);
        if page.page_json.is_none() {
            let page_json = PageJson::new(pju::page_json_blank());
            page.page_json = Some(page_json);
        }
        page
    }

    /// The page's content as it is to be served, once the system update
    /// has been applied (`updated`: whether the update steps changed the
    /// page; see `page_system_update::update`), with what that update
    /// leaves to write.
    pub fn source(&mut self, updated: bool) -> (r: (Option<Vec<u8>>, Option<page_system_update::UpdateSaves>))
        ensures
            page_system_update::update_spec(*old(self), updated, *final(self), r.1),
            page_utility::opt_bytes(r.0) == final(self).file.bytes_spec(),
    {
        let saves = page_system_update::update(self, updated);
        let bytes = match self.file().content_bytes() {
            Some(b) => Some(b.clone()),
            None => None,
        };
        (bytes, saves)
    }

    /// Whether the file is a backup, its name ending in digits
    /// (`xxx.html.01`).
    pub fn name_end_num(&self) -> (r: bool)
        ensures
            r == crate::pattern::is_match_spec(BACKUP_NAME_PATTERN@, self.file.filename_spec()),
    {
        crate::pattern::is_match(BACKUP_NAME_PATTERN, self.file().filename())
    }

    /// The page's file.
    pub fn file(&self) -> (r: &PageFile)
        ensures
            r == &self.file,
    {
        &self.file
    }

    /// Replaces the data; `Err` when the page has none.
    pub fn page_json_replace(&mut self, page_json: Json) -> (r: Result<(), ()>)
        ensures
            old(self).page_json is None ==> r is Err && *final(self) == *old(self),
            old(self).page_json matches Some(pj) ==> r is Ok && final(self).page_json == Some(
                PageJson { page_json: final(self).page_json->Some_0.page_json, ..pj },
            ) && final(self).page_json->Some_0.page_json@ == page_json@,
            final(self).url == old(self).url,
            final(self).file == old(self).file,
    {
        match self.page_json.as_mut() {
            None => Err(()),
            Some(pj) => {
                pj.value_replace(page_json);
                Ok(())
            },
        }
    }

    /// The name of the backup that the next save writes: the file's name, a
    /// dot, and the next revision.
    fn filename_rev_next(&mut self) -> (r: Option<String>)
        requires
            old(self).page_json matches Some(pj) ==> pj.rev_next_allowed(),
        ensures
            old(self).page_json is None ==> r is None && *final(self) == *old(self),
            old(self).page_json matches Some(pj) ==> r matches Some(s) && {
                let n = if pj.rev_next is Some {
                    pj.rev_next->Some_0
                } else {
                    (pj.rev_spec() + 1) as u32
                };
                &&& s@ == old(self).file.filename_spec() + "."@ + text::dec_spec(n as nat)
                &&& final(self).page_json->Some_0.rev_next == Some(n)
                &&& final(self).page_json->Some_0.rev == (if pj.rev_next is Some {
                    pj.rev
                } else {
                    Some(pj.rev_spec())
                })
                &&& final(self).page_json->Some_0.page_json@ == (if pj.rev_next is Some {
                    pj.page_json@
                } else {
                    jvalue::set3(pj.page_json@, "data"@, "page"@, "rev"@, jvalue::u32_val(n))
                })
            },
            final(self).url == old(self).url,
            final(self).file == old(self).file,
            final(self).page_json is Some == old(self).page_json is Some,
    {
        let filename = String::from_str(self.file().filename());
        let page_json = match self.page_json.as_mut() {
            Some(v) => v,
            None => return None,
        };
        let n = page_json.rev_next();
        let num = text::u32_to_string(n);
        Some(text::concat3(filename.as_str(), ".", num.as_str()))
    }

    /// The name of the backup of the page as it is now, under its current
    /// revision: the file's name, a dot and the revision.  `None` when the
    /// page has no data.  The caller writes the file's bytes to that name
    /// unless a file of that name exists.
    pub fn page_current_save(&mut self) -> (r: Option<String>)
        ensures
            old(self).page_json is None ==> r is None && *final(self) == *old(self),
            old(self).page_json matches Some(pj) ==> r matches Some(s) && s@
                == old(self).file.filename_spec() + "."@ + text::dec_spec(pj.rev_spec() as nat)
                && final(self).page_json == Some(PageJson { rev: Some(pj.rev_spec()), ..pj }),
            final(self).url == old(self).url,
            final(self).file == old(self).file,
    {
        let rev = match self.page_json.as_mut() {
            Some(page_json) => page_json.rev(),
            None => return None,
        };
        let num = text::u32_to_string(rev);
        Some(text::concat3(self.file().filename(), ".", num.as_str()))
    }

    /// Writes the page anew from its data: moves the revision on, makes the
    /// page from the data, and puts its HTML in place of the file's content.
    /// Gives the name of the backup to write; the caller writes the text to
    /// the file's name and the bytes to the backup.  `Err` when the page has
    /// no data or its revision can go no higher.
    pub fn page_json_update_save(&mut self) -> (r: Result<String, ()>)
        ensures
            old(self).page_json is None ==> r is Err && *final(self) == *old(self),
            old(self).page_json matches Some(pj) ==> (update_fails(pj.rev, pj.rev_next, pj.page_json@)
                <==> r is Err),
            (old(self).page_json matches Some(pj) && !pj.rev_next_allowed()) ==> *final(self) == *old(self),
            r matches Ok(name) ==> old(self).page_json matches Some(pj) && update_saved(
                old(self).file.filename_spec(),
                pj.rev,
                pj.rev_next,
                pj.page_json@,
                *final(self),
                name@,
            ),
            final(self).url == old(self).url,
            final(self).file.filename_spec() == old(self).file.filename_spec(),
            final(self).file.debug_spec() == old(self).file.debug_spec(),
            final(self).page_json is Some == old(self).page_json is Some,
    {
        let allowed = match &self.page_json {
            Some(pj) => match pj.rev_next {
                Some(_) => true,
                None => match &pj.rev {
                    Some(r) => *r < u32::MAX,
                    None => match pj.page_json.get3("data", "page", "rev") {
                        Some(v) => match v.as_u32() {
                            Some(n) => n < u32::MAX,
                            None => true,
                        },
                        None => true,
                    },
                },
            },
            None => return Err(()),
        };
        if !allowed {
            return Err(());
        }
        let filename_rev_next = match self.filename_rev_next() {
            Some(v) => v,
            None => return Err(()),
        };
        let page_json = match self.page_json.as_ref() {
            Some(v) => v.value(),
            None => return Err(()),
        };
        let page_dom = json_to_dom::json_to_dom(page_json);
        let html = page_dom.to_html();
        self.file.content_str_replace(html.as_str());
        Ok(filename_rev_next)
    }

    /// A new sub page of this page (see `page_utility::page_sub_new`).
    pub fn page_sub_new(&mut self, new_title: &str, new_href: &str, child_content: Option<Vec<u8>>) -> (r: Result<Page, String>)
        ensures
            *final(self) == *old(self),
            page_utility::page_sub_new_url_spec(old(self).url@, new_title@, new_href@) matches Err(e) ==> (r matches Err(x) && x@ == e),
            page_utility::page_sub_new_url_spec(old(self).url@, new_title@, new_href@) matches Ok(url) ==> {
                let titled = jvalue::set3(
                    page_utility::new_page_data(page_utility::opt_bytes(child_content)),
                    "data"@,
                    "page"@,
                    "title"@,
                    jvalue::str_val(text::trim_spec(new_title@)),
                );
                match page_utility::navi_inherit_and_child_spec(*old(self), url, Some(titled)) {
                    Err(e) => r matches Err(x) && x@ == e,
                    Ok(navi) => r matches Ok(child) && {
                        &&& child.url@ == url
                        &&& child.file.filename_spec() == filename_of(url)
                        &&& child.file.bytes_spec() == page_utility::opt_bytes(child_content)
                        &&& !child.file.debug_spec()
                        &&& child.page_json matches Some(pj) && pj.rev is None && pj.rev_next is None
                        &&& page_utility::data_of(child) == jvalue::set2(titled, "data"@, "navi"@, navi)
                    },
                }
            },
    {
        page_utility::page_sub_new(self, new_title, new_href, child_content)
    }

    /// Reads a move request (`parent_url`, `dest_url`, relative to this
    /// page): the parent's URL (`None` when it is empty after trimming) and
    /// the destination's URL.  The caller then moves this page there
    /// (`page_utility::page_move2`) and answers `PAGE_MOVE2_REPLY`.
    pub fn page_move2(&self, req: &Json) -> (r: Result<(Option<String>, String), String>)
        ensures
            r matches Ok(v) ==> page_move2_request_spec(self.url@, req@) == Ok::<(Option<Seq<char>>, Seq<char>), Seq<char>>((
                match v.0 {
                    Some(p) => Some(p@),
                    None => None,
                },
                v.1@,
            )),
            r matches Err(e) ==> page_move2_request_spec(self.url@, req@) == Err::<(Option<Seq<char>>, Seq<char>), Seq<char>>(e@),
    {
        let parent_url = match req.get("parent_url") {
            Some(v) => match v.as_str() {
                Some(s) => text::trim(s),
                None => return Err(String::from_str("page5.page_move2 req.parent_url failed")),
            },
            None => return Err(String::from_str("page5.page_move2 req.parent_url failed")),
        };
        let parent_url = if parent_url.as_str().unicode_len() == 0 {
            None
        } else {
            match url_util::join(self.url.as_str(), parent_url.as_str()) {
                Some(u) => Some(u),
                None => return Err(String::from_str("page5.page_move2 parent_url join failed")),
            }
        };
        let dest_url = match req.get("dest_url") {
            Some(v) => match v.as_str() {
                Some(url_str) => match url_util::join(self.url.as_str(), url_str) {
                    Some(u) => u,
                    None => return Err(String::from_str("page5.page_move2 dest_url join failed")),
                },
                None => return Err(String::from_str("page5.page_move2 req.dest_url failed")),
            },
            None => return Err(String::from_str("page5.page_move2 req.dest_url failed")),
        };
        Ok((parent_url, dest_url))
    }

    /// Moves this page to `dest_page` below `parent_page` (see
    /// `page_utility::page_move`).
    pub fn page_move(&mut self, dest_page: &mut Page, parent_page: &Page) -> (r: Result<String, String>)
        ensures
            old(self).page_json is None ==> (r matches Err(e) && e@ == "fm_page.page_json not found"@),
            old(self).page_json is Some && old(dest_page).page_json is None ==> (r matches Err(e) && e@
                == "dest_page.page_json not found"@),
            old(self).page_json is Some && old(dest_page).page_json is Some ==> ({
                let pj = old(dest_page).page_json->Some_0;
                match page_utility::m_steps_spec(Some(*parent_page), *old(self), *old(dest_page)) {
                    Err(e) => r matches Err(x) && x@ == e && final(dest_page).page_json is Some
                        && page_utility::data_of(*final(dest_page)) == page_utility::m_steps_left_spec(
                        Some(*parent_page),
                        *old(self),
                        *old(dest_page),
                    ),
                    Ok(d3) => if update_fails(pj.rev, pj.rev_next, d3) {
                        r matches Err(x) && x@ == "page_json_update_save was failed"@
                            && final(dest_page).page_json is Some && page_utility::data_of(*final(dest_page)) == d3
                    } else {
                        r matches Ok(name) && update_saved(
                            old(dest_page).file.filename_spec(),
                            pj.rev,
                            pj.rev_next,
                            d3,
                            *final(dest_page),
                            name@,
                        )
                    },
                }
            }),
            *final(self) == *old(self),
    {
        page_utility::page_move(self, dest_page, Some(parent_page))
    }

    /// Whether the page is one of this system's: an HTML page (with a body)
    /// that names one of its marks (`naviBase`, `wc_top`, `WC_top`,
    /// `subsection`).
    pub fn is_wc_page(&mut self) -> (r: bool)
        ensures
            r == (match old(self).file.str_spec() {
                Some(t) => (text::contains_spec(t, "<body"@) || text::contains_spec(t, "<BODY"@)) && (
                text::contains_spec(t, "naviBase"@) || text::contains_spec(t, "wc_top"@)
                    || text::contains_spec(t, "WC_top"@) || text::contains_spec(t, "subsection"@)),
                None => false,
            }),
            *final(self) == *old(self),
    {
        if self.file.contains("<body") == false && self.file.contains("<BODY") == false {
            return false;
        }
        if (self.file.contains("naviBase") || self.file.contains("wc_top") || self.file.contains(
            "WC_top",
        ) || self.file.contains("subsection")) == false {
            return false;
        }
        true
    }
}

} // verus!
