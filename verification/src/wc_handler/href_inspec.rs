//! Following links to where their targets are now.
//!
//! A link's target may move.  A page can keep intermediate references,
//! `data.href_reference` (a fragment of the page mapped to where its target
//! went), so that links through it still reach their targets; a link found
//! to point somewhere else than where its target now is gets rewritten in
//! the calling page.
use vstd::prelude::*;
use crate::jvalue::{self, Json, JVal};
use crate::text;
use crate::url_util;
use crate::page::{self, Page};
use crate::page::page_json_utility as pju;
use crate::page::page_system_update::{UpdateSaves, saved_anew};
use crate::page::page_utility::data_of;

verus! {

/// A link being followed: the page it is in (`caller_page`), the link as it
/// is written there (`req_url_str`), the page it leads to (`req_page`),
/// and the URLs already passed through.
pub struct HrefInspec {
    pub caller_page: Page,
    pub req_url_str: String,
    pub req_page: Page,
    pub imd_page: Option<Page>,
    pub hist: Option<Vec<String>>,
}

/// What `dest` finds: the destination and the URL that the link should be
/// relative to (`Found`), or a reference to follow further (`Follow`: the
/// link `req_url_str` in the page at `caller_url`, leading to `req_url`,
/// with the URLs passed through so far, which the next step starts from;
/// see `HrefInspec::from_step`).
pub enum DestStep {
    Found(Option<String>, Option<String>),
    Follow { caller_url: String, req_url_str: String, req_url: String, hist: Option<Vec<String>> },
}

/// The URLs passed through.
pub open spec fn hist_view(h: Option<Vec<String>>) -> Option<Seq<Seq<char>>> {
    match h {
        Some(v) => Some(Seq::new(v.len() as nat, |i: int| v[i]@)),
        None => None,
    }
}

/// What `hist` does with the URLs passed through and the URL now followed:
/// `Err` for an empty URL (nothing changes) or one passed through before;
/// otherwise the URL is added.
pub open spec fn hist_spec(h: Option<Seq<Seq<char>>>, u: Seq<char>) -> (bool, Option<Seq<Seq<char>>>) {
    if u.len() == 0 {
        (false, h)
    } else {
        let l = match h {
            Some(l) => l,
            None => Seq::empty(),
        };
        if l.contains(u) {
            (false, Some(l))
        } else {
            (true, Some(l.push(u)))
        }
    }
}

/// The record of URLs passed through refuses a repeat: a URL that `hist`
/// has let through is refused when it comes again, and the record stays
/// as it was; and the record never holds a URL twice.
pub proof fn law_hist_refuses_repeat(h: Option<Seq<Seq<char>>>, u: Seq<char>)
    ensures
        hist_spec(h, u).0 ==> !hist_spec(hist_spec(h, u).1, u).0,
        hist_spec(h, u).0 ==> hist_spec(hist_spec(h, u).1, u).1 == hist_spec(h, u).1,
        (match h {
            Some(l) => l.no_duplicates(),
            None => true,
        }) ==> (match hist_spec(h, u).1 {
            Some(l) => l.no_duplicates(),
            None => true,
        }),
{
    let l = match h {
        Some(l) => l,
        None => Seq::empty(),
    };
    assert(l.push(u)[l.len() as int] == u);
}

/// Following a chain of href references never passes a URL twice: a step
/// that goes on to a further reference hands on the URLs passed through
/// with its own URL added, which was not among them; and a step whose URL
/// (with a fragment) is among the URLs it was handed ends the chain with
/// no destination.  So a circle of references (`P#x` to `Q#y` to `P#x`)
/// ends where it comes round.
pub proof fn law_follow_never_repeats(x: HrefInspec, y: HrefInspec)
    ensures
        x.dest_spec().2 is Some ==> ({
            let l = match hist_view(x.hist) {
                Some(l) => l,
                None => Seq::empty(),
            };
            &&& !l.contains(x.req_page.url@)
            &&& x.dest_spec().3 == Some(l.push(x.req_page.url@))
        }),
        (hist_view(y.hist) matches Some(l) && l.contains(y.req_page.url@) && hash_of(y.req_page.url@).len() > 0)
            ==> (y.dest_spec().0 is None && y.dest_spec().1 is None && y.dest_spec().2 is None),
{
}

/// A link whose fragment names no subsection of the page it leads to, but
/// which the page's href references send elsewhere, is followed there: for
/// every such fragment, `#top` included (a page moved away leaves its
/// `#top` reference behind), `dest` goes on to the reference's target.
/// Only when the page has no such reference does `#top` mean the page
/// itself.
pub proof fn law_reference_is_followed(x: HrefInspec, new: Seq<char>, target: Seq<char>)
    ensures
        ({
            let u = x.req_page.url@;
            let here = x.req_page.page_json is Some && hash_in_subsections(data_of(x.req_page), hash_of(u));
            &&& (hash_of(u).len() > 0 && hist_spec(hist_view(x.hist), u).0 && !here
                && in_hash_reference_spec(x.req_page) == Some(new) && url_util::url_join_spec(u, new) == Some(
                target,
            )) ==> x.dest_spec().2 == Some((u, new, target)) && x.dest_spec().0 is None
            &&& (hash_of(u) == "#top"@ && hist_spec(hist_view(x.hist), u).0 && !here
                && in_hash_reference_spec(x.req_page) is None) ==> x.dest_spec().2 is None && x.dest_spec().0
                == Some(u)
        }),
{
}

/// The fragment (with query) of the URL of the page a link leads to.
pub open spec fn hash_of(req_url: Seq<char>) -> Seq<char> {
    url_util::url_after_path_spec(req_url)
}

/// Whether a subsection of the page has the href `hash`.
pub open spec fn hash_in_subsections(data: JVal, hash: Seq<char>) -> bool {
    match jvalue::get3(data, "data"@, "subsection"@, "data"@) {
        JVal::Obj(es) => exists|k: int|
            0 <= k < es.len() && jvalue::get((#[trigger] es[k]).1, "href"@) == jvalue::str_val(hash),
        _ => false,
    }
}

/// The target of the first href reference for `hash` that is a text.
pub open spec fn first_ref(es: Seq<(Seq<char>, JVal)>, hash: Seq<char>) -> Option<Seq<char>>
    decreases es.len(),
{
    if es.len() == 0 {
        None
    } else if es[0].0 == hash && jvalue::as_str(es[0].1) is Some {
        jvalue::as_str(es[0].1)
    } else {
        first_ref(es.subrange(1, es.len() as int), hash)
    }
}

/// Where the page's href references send `hash`.
pub open spec fn in_hash_reference_spec(p: Page) -> Option<Seq<char>> {
    if p.page_json is None {
        None
    } else {
        match jvalue::get2(data_of(p), "data"@, "href_reference"@) {
            JVal::Obj(es) => first_ref(es, hash_of(p.url@)),
            _ => None,
        }
    }
}

/// A link as the page's data holds it in its text: `href=\"...\"`.
pub open spec fn quoted_href(u: Seq<char>) -> Seq<char> {
    text::replace_spec("href=\""@ + u + "\""@, "\""@, "\\\""@)
}

impl HrefInspec {
    /// The link `req_url_str` in the page at `caller_url`, resolved; `None`
    /// when it does not resolve.  The caller loads the page there for `from`.
    pub fn req_url(caller_url: &str, req_url_str: &str) -> (r: Option<String>)
        ensures
            r matches Some(u) ==> url_util::url_join_spec(caller_url@, req_url_str@) == Some(u@),
            r is None ==> url_util::url_join_spec(caller_url@, req_url_str@) is None,
    {
        url_util::join(caller_url, req_url_str)
    }

    /// The link `req_url_str` in `caller_page`, leading to `req_page`.
    pub fn from(caller_page: Page, req_url_str: &str, req_page: Page) -> (r: HrefInspec)
        ensures
            r.caller_page == caller_page,
            r.req_url_str@ == req_url_str@,
            r.req_page == req_page,
            r.imd_page is None,
            r.hist is None,
    {
        HrefInspec {
            caller_page,
            req_url_str: String::from_str(req_url_str),
            req_page,
            imd_page: None,
            hist: None,
        }
    }

    /// The next step of a chain of references: the link `req_url_str` in
    /// `caller_page`, leading to `req_page`, with the URLs passed through
    /// before (`hist` of a `DestStep::Follow`).
    pub fn from_step(caller_page: Page, req_url_str: &str, req_page: Page, hist: Option<Vec<String>>) -> (r: HrefInspec)
        ensures
            r.caller_page == caller_page,
            r.req_url_str@ == req_url_str@,
            r.req_page == req_page,
            r.imd_page is None,
            r.hist == hist,
    {
        HrefInspec { caller_page, req_url_str: String::from_str(req_url_str), req_page, imd_page: None, hist }
    }

    /// The URL that the link should be relative to: the intermediate
    /// page's, or else the calling page's.
    pub open spec fn valid_url(&self) -> Seq<char> {
        match self.imd_page {
            Some(p) => p.url@,
            None => self.caller_page.url@,
        }
    }

    fn url_valid(&self) -> (r: String)
        ensures
            r@ == self.valid_url(),
    {
        match &self.imd_page {
            Some(p) => p.url.clone(),
            None => self.caller_page.url.clone(),
        }
    }

    /// What `dest` finds, with the URLs passed through after it.
    pub open spec fn dest_spec(&self) -> (Option<Seq<char>>, Option<Seq<char>>, Option<(Seq<char>, Seq<char>, Seq<char>)>, Option<Seq<Seq<char>>>) {
        let u = self.req_page.url@;
        let hash = hash_of(u);
        let found = (Some(u), Some(self.valid_url()), None::<(Seq<char>, Seq<char>, Seq<char>)>);
        if hash.len() == 0 {
            (found.0, found.1, None, hist_view(self.hist))
        } else {
            let (ok, h) = hist_spec(hist_view(self.hist), u);
            if !ok {
                (None, None, None, h)
            } else if self.req_page.page_json is Some && hash_in_subsections(data_of(self.req_page), hash) {
                (found.0, found.1, None, h)
            } else {
                let follow = match in_hash_reference_spec(self.req_page) {
                    Some(new) => match url_util::url_join_spec(u, new) {
                        Some(j) => Some((u, new, j)),
                        None => None,
                    },
                    None => None,
                };
                if follow is Some {
                    (None, None, follow, h)
                } else if hash == "#top"@ {
                    (found.0, found.1, None, h)
                } else {
                    (None, None, None, h)
                }
            }
        }
    }

    /// Where the link leads now: its own target when it needs nothing
    /// (no fragment; the fragment is a subsection of the page; it is
    /// `#top`), a reference to follow when the page's href references send
    /// the fragment elsewhere, nothing when the URL was passed through
    /// before.
    pub fn dest(&mut self) -> (r: DestStep)
        ensures
            ({
                let (d, v, f, h) = old(self).dest_spec();
                &&& f is None ==> (r matches DestStep::Found(rd, rv) && opt_view(rd) == d && opt_view(rv) == v
                    && hist_view(final(self).hist) == h)
                &&& f matches Some(t) ==> (r matches DestStep::Follow { caller_url, req_url_str, req_url, hist }
                    && (caller_url@, req_url_str@, req_url@) == t && hist_view(hist) == h)
            }),
            final(self).caller_page == old(self).caller_page,
            final(self).req_page == old(self).req_page,
            final(self).req_url_str == old(self).req_url_str,
            final(self).imd_page == old(self).imd_page,
    {
        if self.hash_none() {
            let url_valid = self.url_valid();
            return DestStep::Found(Some(self.req_page.url.clone()), Some(url_valid));
        }
        if self.hist().is_err() {
            return DestStep::Found(None, None);
        }
        if self.hash_in_page_subsection() {
            let url_valid = self.url_valid();
            return DestStep::Found(Some(self.req_page.url.clone()), Some(url_valid));
        }
        if let Some(url_ref_new) = self.in_hash_reference() {
            if let Some(u) = url_util::join(self.req_page.url.as_str(), url_ref_new.as_str()) {
                let hist = self.hist.take();
                return DestStep::Follow {
                    caller_url: self.req_page.url.clone(),
                    req_url_str: url_ref_new,
                    req_url: u,
                    hist,
                };
            }
        }
        let hash = url_util::after_path(self.req_page.url.as_str());
        if text::str_eq(hash.as_str(), "#top") {
            let url_valid = self.url_valid();
            return DestStep::Found(Some(self.req_page.url.clone()), Some(url_valid));
        }
        DestStep::Found(None, None)
    }

    fn hash_none(&self) -> (r: bool)
        ensures
            r == (hash_of(self.req_page.url@).len() == 0),
    {
        let hash = url_util::after_path(self.req_page.url.as_str());
        hash.as_str().unicode_len() == 0
    }

    /// Records the URL now followed; `Err` when it is empty or was passed
    /// through before.  The record travels along a chain of references
    /// (`DestStep::Follow`, `from_step`), so that following references never
    /// goes round in a circle (`law_follow_never_repeats`).
    pub fn hist(&mut self) -> (r: Result<(), ()>)
        ensures
            (r is Ok, hist_view(final(self).hist)) == hist_spec(hist_view(old(self).hist), old(self).req_page.url@),
            final(self).caller_page == old(self).caller_page,
            final(self).req_page == old(self).req_page,
            final(self).req_url_str == old(self).req_url_str,
            final(self).imd_page == old(self).imd_page,
    {
        let req_url_str = self.req_page.url.clone();
        if req_url_str.as_str().unicode_len() == 0 {
            return Err(());
        }
        let mut list = match self.hist.take() {
            Some(v) => v,
            None => Vec::new(),
        };
        let ghost l = Seq::new(list.len() as nat, |i: int| list[i]@);
        assert(hist_view(old(self).hist) == (if old(self).hist is Some { Some(l) } else { None::<Seq<Seq<char>>> })) by {
            if old(self).hist is Some {
                assert(hist_view(old(self).hist)->Some_0 =~= l);
            }
        }
        proof {
            if old(self).hist is None {
                assert(l =~= Seq::<Seq<char>>::empty());
            }
        }
        let mut k: usize = 0;
        while k < list.len()
            invariant
                k <= list.len(),
                l == Seq::new(list.len() as nat, |i: int| list[i]@),
                hist_view(old(self).hist) == (if old(self).hist is Some { Some(l) } else { None::<Seq<Seq<char>>> }),
                old(self).hist is None ==> l.len() == 0,
                req_url_str@ == old(self).req_page.url@,
                req_url_str@.len() > 0,
                self.caller_page == old(self).caller_page,
                self.req_page == old(self).req_page,
                self.req_url_str == old(self).req_url_str,
                self.imd_page == old(self).imd_page,
                forall|j: int| 0 <= j < k ==> l[j] != req_url_str@,
            decreases list.len() - k,
        {
            if text::str_eq(list[k].as_str(), req_url_str.as_str()) {
                assert(l[k as int] == req_url_str@);
                assert(l.contains(req_url_str@));
                self.hist = Some(list);
                assert(hist_view(self.hist)->Some_0 =~= l);
                return Err(());
            }
            k = k + 1;
        }
        assert(!l.contains(req_url_str@));
        list.push(req_url_str);
        self.hist = Some(list);
        assert(hist_view(self.hist)->Some_0 =~= l.push(old(self).req_page.url@));
        Ok(())
    }

    /// Whether the fragment of the link is the href of a subsection of the
    /// page it leads to (only the hrefs are looked at, not the contents).
    fn hash_in_page_subsection(&mut self) -> (r: bool)
        ensures
            r == (old(self).req_page.page_json is Some && hash_in_subsections(
                data_of(old(self).req_page),
                hash_of(old(self).req_page.url@),
            )),
            *final(self) == *old(self),
    {
        let hash = url_util::after_path(self.req_page.url.as_str());
        let page_json = match self.req_page.page_json.as_ref() {
            Some(v) => v.value(),
            None => return false,
        };
        let subsections = match page_json.get3("data", "subsection", "data") {
            Some(d) => match d.as_object() {
                Some(o) => o,
                None => return false,
            },
            None => return false,
        };
        let ghost es = jvalue::entries_view(subsections@);
        assert(jvalue::get3(data_of(self.req_page), "data"@, "subsection"@, "data"@) == JVal::Obj(es));
        let mut k: usize = 0;
        while k < subsections.len()
            invariant
                k <= subsections.len(),
                es == jvalue::entries_view(subsections@),
                *self == *old(self),
                self.req_page.page_json is Some,
                hash@ == hash_of(self.req_page.url@),
                jvalue::get3(data_of(self.req_page), "data"@, "subsection"@, "data"@) == JVal::Obj(es),
                forall|j: int| 0 <= j < k ==> jvalue::get((#[trigger] es[j]).1, "href"@) != jvalue::str_val(hash@),
            decreases subsections.len() - k,
        {
            assert(es[k as int].1 == subsections@[k as int].1@);
            let hit = match subsections[k].1.get("href") {
                Some(h) => h.eq_str(hash.as_str()),
                None => false,
            };
            if hit {
                assert(jvalue::get(es[k as int].1, "href"@) == jvalue::str_val(hash@));
                assert(jvalue::get3(data_of(self.req_page), "data"@, "subsection"@, "data"@) == JVal::Obj(es));
                assert(hash_in_subsections(data_of(self.req_page), hash@));
                return true;
            }
            k = k + 1;
        }
        false
    }

    /// Where the href references of the page the link leads to send its
    /// fragment.
    pub fn in_hash_reference(&self) -> (r: Option<String>)
        ensures
            r matches Some(s) ==> in_hash_reference_spec(self.req_page) == Some(s@),
            r is None ==> in_hash_reference_spec(self.req_page) is None,
    {
        let hash = url_util::after_path(self.req_page.url.as_str());
        let page_json = match self.req_page.page_json.as_ref() {
            Some(v) => v.value(),
            None => return None,
        };
        let href_ref = match page_json.get2("data", "href_reference") {
            Some(d) => match d.as_object() {
                Some(o) => o,
                None => return None,
            },
            None => return None,
        };
        let ghost es = jvalue::entries_view(href_ref@);
        let mut k: usize = 0;
        assert(es.subrange(0, es.len() as int) =~= es);
        assert(jvalue::get2(data_of(self.req_page), "data"@, "href_reference"@) == JVal::Obj(es));
        while k < href_ref.len()
            invariant
                k <= href_ref.len(),
                es == jvalue::entries_view(href_ref@),
                self.req_page.page_json is Some,
                hash@ == hash_of(self.req_page.url@),
                jvalue::get2(data_of(self.req_page), "data"@, "href_reference"@) == JVal::Obj(es),
                first_ref(es, hash@) == first_ref(es.subrange(k as int, es.len() as int), hash@),
            decreases href_ref.len() - k,
        {
            assert(es[k as int] == (href_ref@[k as int].0@, href_ref@[k as int].1@));
            let ghost rest = es.subrange(k as int, es.len() as int);
            assert(rest[0] == es[k as int]);
            assert(rest.subrange(1, rest.len() as int) =~= es.subrange(k + 1, es.len() as int));
            if text::str_eq(href_ref[k].0.as_str(), hash.as_str()) {
                match href_ref[k].1.as_str() {
                    Some(v) => {
                        assert(rest[0].0 == hash@);
                        assert(first_ref(rest, hash@) == jvalue::as_str(rest[0].1));
                        assert(jvalue::get2(data_of(self.req_page), "data"@, "href_reference"@) == JVal::Obj(es));
                        return Some(String::from_str(v));
                    },
                    None => {},
                }
            }
            k = k + 1;
        }
        assert(es.subrange(k as int, es.len() as int) =~= Seq::<(Seq<char>, JVal)>::empty());
        None
    }

    /// Rewrites the link in the calling page when it should now be
    /// relative to `url_valid` (or be its path): in the text of the calling
    /// page's data, every `href=\"link\"` becomes `href=\"new\"`, the data
    /// is replaced, the page's content is kept for a backup and the page is
    /// written anew (what the result names; see `saved_anew`).  Nothing
    /// happens when there is no such URL, it leads where the link does, the
    /// page has no data, the text does not hold the link, or the new text
    /// does not parse.
    pub fn href_update(&mut self, url_valid: Option<String>) -> (r: Option<UpdateSaves>)
        ensures
            href_update_spec(*old(self), opt_view(url_valid)) is None ==> r is None && *final(self) == *old(self),
            href_update_spec(*old(self), opt_view(url_valid)) matches Some(v) ==> (r matches Some(u)
                && saved_anew(old(self).caller_page, v, final(self).caller_page, u)),
            final(self).req_page == old(self).req_page,
            final(self).req_url_str == old(self).req_url_str,
            final(self).imd_page == old(self).imd_page,
            final(self).hist == old(self).hist,
    {
        let url_valid = match url_valid {
            Some(v) => v,
            None => return None,
        };
        let a = url_util::after_host(self.req_page.url.as_str());
        let b = url_util::after_host(url_valid.as_str());
        if text::str_eq(a.as_str(), b.as_str()) {
            return None;
        }
        let page_json_str = match self.caller_page.page_json.as_ref() {
            Some(v) => jvalue::to_text(v.value()),
            None => return None,
        };
        let page_json_str = pju::page_json_str_decode(page_json_str.as_str());
        proof {
            reveal_strlit("\"");
            reveal_strlit("href=\"");
        }
        let from = text::concat3("href=\"", self.req_url_str.as_str(), "\"");
        let from = text::replace(from.as_str(), "\"", "\\\"");
        if !text::contains(page_json_str.as_str(), from.as_str()) {
            return None;
        }
        let to_url = match url_util::make_relative(self.caller_page.url.as_str(), url_valid.as_str()) {
            Some(url) => url,
            None => url_util::after_host(url_valid.as_str()),
        };
        let to = text::concat3("href=\"", to_url.as_str(), "\"");
        let to = text::replace(to.as_str(), "\"", "\\\"");
        proof {
            let s0 = "href=\""@ + self.req_url_str@ + "\""@;
            assert(s0[0] == 'h');
            assert(!text::occurs_at(s0, "\""@, 0)) by {
                if text::occurs_at(s0, "\""@, 0) {
                    assert(s0.subrange(0, 1)[0] == s0[0]);
                }
            }
            lemma_replace_first(s0, "\""@, "\\\""@);
        }
        let page_json_str = text::replace(page_json_str.as_str(), from.as_str(), to.as_str());
        let page_json = match pju::page_json_value_from_str(page_json_str.as_str()) {
            Some(v) => v,
            None => return None,
        };
        let current_bytes = match self.caller_page.file().content_bytes() {
            Some(b) => Some(b.clone()),
            None => None,
        };
        if let Err(_) = self.caller_page.page_json_replace(page_json) {
            return None;
        }
        let current_backup = self.caller_page.page_current_save();
        let update_backup = self.caller_page.page_json_update_save();
        Some(UpdateSaves { current_backup, current_bytes, update_backup })
    }

    /// Answers a link request: `{"dest": path}` with the path of the
    /// destination (`{}` when there is none), once the link is rewritten in
    /// the calling page as `href_update` does with `url_valid`.
    pub fn href_req_handle(&mut self, dest: Option<String>, url_valid: Option<String>) -> (r: (Vec<u8>, Option<UpdateSaves>))
        ensures
            r.0@ == vstd::utf8::encode_utf8(jvalue::json_text(dest_reply(opt_view(dest)))),
            href_update_spec(*old(self), opt_view(url_valid)) is None ==> r.1 is None && *final(self) == *old(self),
            href_update_spec(*old(self), opt_view(url_valid)) matches Some(v) ==> (r.1 matches Some(u)
                && saved_anew(old(self).caller_page, v, final(self).caller_page, u)),
    {
        let mut jv = Json::new_object();
        if let Some(d) = dest {
            let p = url_util::path(d.as_str());
            jv.set("dest", Json::from_str(p.as_str()));
        }
        let saves = self.href_update(url_valid);
        let s = jvalue::to_text(&jv);
        proof {
            text::lemma_bytes_valid(s@);
        }
        (text::to_bytes(s.as_str()), saves)
    }
}

/// The new data of the calling page when `href_update` rewrites the link
/// with `url_valid`, or `None` when it leaves the page alone.
pub open spec fn href_update_spec(h: HrefInspec, url_valid: Option<Seq<char>>) -> Option<JVal> {
    match url_valid {
        None => None,
        Some(valid) => if url_util::url_after_host_spec(h.req_page.url@) == url_util::url_after_host_spec(valid) {
            None
        } else if h.caller_page.page_json is None {
            None
        } else {
            let pj = h.caller_page.page_json->Some_0;
            let decoded = pju::page_json_str_decode_spec(jvalue::json_text(pj.page_json@));
            let from = quoted_href(h.req_url_str@);
            let to_url = match url_util::url_relative_spec(h.caller_page.url@, valid) {
                Some(u) => u,
                None => url_util::url_after_host_spec(valid),
            };
            if !text::contains_spec(decoded, from) {
                None
            } else {
                pju::value_from_str_spec(text::replace_spec(decoded, from, quoted_href(to_url)))
            }
        },
    }
}

/// The view of optional text.
pub open spec fn opt_view(o: Option<String>) -> Option<Seq<char>> {
    match o {
        Some(s) => Some(s@),
        None => None,
    }
}

/// The answer to a link request: `{"dest": path}`, or `{}`.
pub open spec fn dest_reply(dest: Option<Seq<char>>) -> JVal {
    match dest {
        Some(d) => jvalue::set(jvalue::empty_obj(), "dest"@, jvalue::str_val(url_util::url_path_spec(d))),
        None => jvalue::empty_obj(),
    }
}

proof fn lemma_replace_first(s: Seq<char>, from: Seq<char>, to: Seq<char>)
    requires
        from.len() > 0,
        s.len() > 0,
        !text::occurs_at(s, from, 0),
    ensures
        text::replace_spec(s, from, to).len() > 0,
        text::replace_spec(s, from, to)[0] == s[0],
{
}

} // verus!
