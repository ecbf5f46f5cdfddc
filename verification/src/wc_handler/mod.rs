//! Answering the requests that reach the server: which page a request is
//! about, what it asks for, and the replies.
pub mod http_request;
pub mod href_inspec;

use vstd::prelude::*;
use crate::jvalue::{self, Json, JVal};
use crate::text;
use crate::page::{self, Page};
use crate::page::page_json_utility as pju;
use crate::page::page_system_update::UpdateSaves;
use crate::page::page_utility;
use self::http_request::{HttpRequest, header_view, header_spec, request_url_spec, request_spec};

verus! {

/// Set-up done once when the server starts; there is nothing to do yet.
pub fn system_ini() {
}

/// The head of a reply `200 OK` to a body of `len` bytes.
pub open spec fn head_200(len: nat) -> Seq<char> {
    "HTTP/1.1 200 OK\r\nContent-Length: "@ + text::dec_spec(len) + "\r\n\r\n"@
}

/// The head of a reply `404 Not Found` to a body of `len` bytes.
pub open spec fn head_404(len: nat) -> Seq<char> {
    "HTTP/1.1 404 Not Found\r\nContent-Length: "@ + text::dec_spec(len) + "\r\n\r\n"@
}

/// A reply `200 OK` carrying `source`.
pub fn response_200(source: &Vec<u8>) -> (r: Vec<u8>)
    ensures
        r@ == text::bytes_of(head_200(source@.len())) + source@,
{
    let n = text::usize_to_string(source.len());
    let header = text::concat3("HTTP/1.1 200 OK\r\nContent-Length: ", n.as_str(), "\r\n\r\n");
    let mut out = text::to_bytes(header.as_str());
    let mut i: usize = 0;
    let ghost h = out@;
    while i < source.len()
        invariant
            i <= source.len(),
            out@ == h + source@.subrange(0, i as int),
        decreases source.len() - i,
    {
        out.push(source[i]);
        assert(out@ =~= h + source@.subrange(0, i + 1));
        i = i + 1;
    }
    assert(source@.subrange(0, source.len() as int) =~= source@);
    out
}

/// A reply `404 Not Found` saying `Not Found.`.
pub fn response_404() -> (r: Vec<u8>)
    ensures
        r@ == text::bytes_of(head_404(text::bytes_of("Not Found."@).len()) + "Not Found."@),
{
    let source = text::to_bytes("Not Found.");
    let n = text::usize_to_string(source.len());
    let head = text::concat3("HTTP/1.1 404 Not Found\r\nContent-Length: ", n.as_str(), "\r\n\r\n");
    let all = text::concat(head.as_str(), "Not Found.");
    text::to_bytes(all.as_str())
}

/// The reply to a request of the page's script: `{"res":"<e>"}` for a
/// refusal `e`, as it is written (nothing in `e` is escaped).
pub open spec fn refusal_text(e: Seq<char>) -> Seq<char> {
    "{\"res\":\""@ + e + "\"}"@
}

/// The reply to a request of the page's script, `200 OK` either way: the
/// body given, or the refusal as `refusal_text` writes it.
pub fn post_reply(res: Result<Vec<u8>, String>) -> (r: Vec<u8>)
    ensures
        res matches Ok(v) ==> r@ == text::bytes_of(head_200(v@.len())) + v@,
        res matches Err(e) ==> r@ == text::bytes_of(head_200(text::bytes_of(refusal_text(e@)).len()))
            + text::bytes_of(refusal_text(e@)),
{
    match res {
        Ok(v) => response_200(&v),
        Err(e) => {
            let t = text::concat3("{\"res\":\"", e.as_str(), "\"}");
            let b = text::to_bytes(t.as_str());
            response_200(&b)
        },
    }
}

/// The reply to a data save that went through.
pub const JSON_SAVE_REPLY: &'static str = "{\"res\":\"post_handle page_json_save\"}";

/// The reply to a new page that was made.
pub const PAGE_NEW_REPLY: &'static str = "{\"res\":\"post_handle page_new\"}";

/// The reply to a move request that was read.
pub const PAGE_MOVE_REPLY: &'static str = "{\"res\":\"post_handle page_move\"}";

/// The reply to `onload`: `{"foo":"Mee","hee":"Moo Onload"}`.
pub open spec fn onload_value() -> JVal {
    jvalue::set(
        jvalue::set(jvalue::empty_obj(), "foo"@, jvalue::str_val("Mee"@)),
        "hee"@,
        jvalue::str_val("Moo Onload"@),
    )
}

/// The request, with its URL, that the bytes read from a connection hold;
/// `None` (answered `404`) when they hold no request, or one without a URL.
pub fn request_of(data: &[u8]) -> (r: Option<(HttpRequest, String)>)
    ensures
        r is None <==> (match request_spec(data@) {
            Some(q) => request_url_spec(q.2, q.1) is None,
            None => true,
        }),
        r matches Some(x) ==> request_spec(data@) == Some((x.0.method@, x.0.path@, header_view(x.0.header@), x.0.body@))
            && request_url_spec(header_view(x.0.header@), x.0.path@) == Some(x.1@),
{
    let request = match HttpRequest::from(data) {
        Some(v) => v,
        None => return None,
    };
    let url = match request.url() {
        Some(v) => v,
        None => return None,
    };
    Some((request, url))
}

/// What a request asks of the script's page (the `wc-request` header).
pub enum Post {
    JsonSave,
    PageNew,
    Href,
    PageMove,
}

/// What is to be done with a request: reply with the bytes given, carry
/// out a request of the page's script (its reply then goes through
/// `post_reply`), or serve the page (`get_handle`, `200`, or `404` when
/// there is nothing to serve).
pub enum Route {
    Reply(Vec<u8>),
    Post(Post),
    Get,
}

/// What the request of a link (`href`) leads to: the URL of the calling
/// page, the link, and the URL it resolves to (`Target`); a refusal; or a
/// body whose `href` is no text, on which the request is not served.
pub enum HrefRequest {
    Target { caller_url: String, url_req: String, req_url: String },
    Refused(String),
    NoHref,
}

/// How `response` routes a request: `None` for a request of the page's
/// script that it carries out itself (`Some` of the reply otherwise).
pub open spec fn post_route_spec(page: Page, h: Seq<(Seq<char>, Seq<char>)>) -> Result<Option<Post>, Seq<char>> {
    let t = page.file.str_spec();
    if !(match t {
        Some(t) => (text::contains_spec(t, "<body"@) || text::contains_spec(t, "<BODY"@)) && (
        text::contains_spec(t, "naviBase"@) || text::contains_spec(t, "wc_top"@)
            || text::contains_spec(t, "WC_top"@) || text::contains_spec(t, "subsection"@)),
        None => false,
    }) {
        Err("not wc_page"@)
    } else if crate::pattern::is_match_spec(page::BACKUP_NAME_PATTERN@, page.file.filename_spec()) {
        Err("backup file"@)
    } else {
        match header_spec(h, "wc-request"@) {
            None => Err("wc-request not found"@),
            Some(req) => if req == "json_save"@ {
                Ok(Some(Post::JsonSave))
            } else if req == "page_new"@ {
                Ok(Some(Post::PageNew))
            } else if req == "onload"@ {
                Ok(None)
            } else if req == "href"@ {
                Ok(Some(Post::Href))
            } else if req == "page_move"@ {
                Ok(Some(Post::PageMove))
            } else {
                Err("request does not match"@)
            },
        }
    }
}

/// The page data that a request's body holds.
pub open spec fn body_value(q: HttpRequest) -> Option<JVal> {
    pju::value_from_str_spec(pju::page_json_str_decode_spec(text::utf8_lossy_spec(q.body@)))
}

/// The title and href of a new page that a request's body names, or why
/// there are none.
pub open spec fn page_new_request_spec(q: HttpRequest) -> Result<(Seq<char>, Seq<char>), Seq<char>> {
    match body_value(q) {
        None => Err("request.body_json_value failed"@),
        Some(v) => match jvalue::as_str(jvalue::get(v, "title"@)) {
            None => Err("req.title not found"@),
            Some(t) => match jvalue::as_str(jvalue::get(v, "href"@)) {
                None => Err("req.href not found"@),
                Some(h) => Ok((t, h)),
            },
        },
    }
}

/// The URL of the new page that a request asks for below the page at
/// `url`, or why there is none.
pub open spec fn page_new_url_spec(q: HttpRequest, url: Seq<char>) -> Result<Seq<char>, Seq<char>> {
    match page_new_request_spec(q) {
        Err(e) => Err(e),
        Ok((t, h)) => match page_utility::page_sub_new_url_spec(url, t, h) {
            Err(_) => Err("page_new failed"@),
            Ok(u) => Ok(u),
        },
    }
}

/// What the request of a link leads to.
pub open spec fn href_request_spec(q: HttpRequest) -> Result<Option<(Seq<char>, Seq<char>, Seq<char>)>, Seq<char>> {
    match request_url_spec(header_view(q.header@), q.path@) {
        None => Err("request.url failed"@),
        Some(caller) => match body_value(q) {
            None => Err("request.body_json_value not found"@),
            Some(v) => match jvalue::as_str(jvalue::get(v, "href"@)) {
                None => Ok(None),
                Some(h) => match crate::url_util::url_join_spec(caller, h) {
                    None => Err("href_indpec5 failed"@),
                    Some(u) => Ok(Some((caller, h, u))),
                },
            },
        },
    }
}

/// A request about a page: the request and the page at its URL.
pub struct Handler {
    pub request: HttpRequest,
    pub page: Page,
}

impl Handler {
    /// The handler of a request whose URL is `url` (as `request_of` gives
    /// it), the page there holding `content` (`None` when its file could
    /// not be read).
    pub fn new(request: HttpRequest, url: &str, content: Option<Vec<u8>>) -> (r: Handler)
        ensures
            r.request == request,
            page::is_page_from(r.page, url@, page_utility::opt_bytes(content)),
    {
        let page = Page::from(url, content);
        Handler { request, page }
    }

    /// What is to be done with the request.  A `POST` is a request of the
    /// page's script: refused (`{"res":"<why>"}`) when the page is not one
    /// of this system's, is a backup, or the `wc-request` header is missing
    /// or unknown; `onload` is answered at once; the others are carried out
    /// by their functions.  A `GET` serves the page; anything else is
    /// answered `404`.
    pub fn response(&mut self) -> (r: Route)
        ensures
            *final(self) == *old(self),
            old(self).request.method@ == "POST"@ ==> match post_route_spec(old(self).page, header_view(old(self).request.header@)) {
                Err(e) => r matches Route::Reply(b) && b@ == text::bytes_of(head_200(text::bytes_of(refusal_text(e)).len()))
                    + text::bytes_of(refusal_text(e)),
                Ok(None) => r matches Route::Reply(b) && b@ == text::bytes_of(head_200(text::bytes_of(jvalue::json_text(onload_value())).len()))
                    + text::bytes_of(jvalue::json_text(onload_value())),
                Ok(Some(p)) => r == Route::Post(p),
            },
            old(self).request.method@ == "GET"@ ==> r is Get,
            old(self).request.method@ != "POST"@ && old(self).request.method@ != "GET"@ ==> (r matches Route::Reply(b)
                && b@ == text::bytes_of(head_404(text::bytes_of("Not Found."@).len()) + "Not Found."@)),
    {
        proof {
            reveal_strlit("POST");
            reveal_strlit("GET");
            assert("POST"@.len() != "GET"@.len());
        }
        if text::str_eq(self.request.method.as_str(), "POST") {
            return match self.post_handle() {
                Err(e) => Route::Reply(post_reply(Err(e))),
                Ok(None) => Route::Reply(post_reply(Ok(Handler::onload()))),
                Ok(Some(p)) => Route::Post(p),
            };
        }
        if text::str_eq(self.request.method.as_str(), "GET") {
            return Route::Get;
        }
        Route::Reply(response_404())
    }

    fn post_handle(&mut self) -> (r: Result<Option<Post>, String>)
        ensures
            *final(self) == *old(self),
            match post_route_spec(old(self).page, header_view(old(self).request.header@)) {
                Err(e) => r matches Err(x) && x@ == e,
                Ok(p) => r == Ok::<Option<Post>, String>(p),
            },
    {
        if self.page.is_wc_page() == false {
            return Err(String::from_str("not wc_page"));
        }
        if self.page.name_end_num() {
            return Err(String::from_str("backup file"));
        }
        let request = match self.request.header("wc-request") {
            Some(v) => v,
            None => return Err(String::from_str("wc-request not found")),
        };
        if text::str_eq(request.as_str(), "json_save") {
            return Ok(Some(Post::JsonSave));
        }
        if text::str_eq(request.as_str(), "page_new") {
            return Ok(Some(Post::PageNew));
        }
        if text::str_eq(request.as_str(), "onload") {
            return Ok(None);
        }
        if text::str_eq(request.as_str(), "href") {
            return Ok(Some(Post::Href));
        }
        if text::str_eq(request.as_str(), "page_move") {
            return Ok(Some(Post::PageMove));
        }
        Err(String::from_str("request does not match"))
    }

    /// The reply to `onload`.
    fn onload() -> (r: Vec<u8>)
        ensures
            r@ == text::bytes_of(jvalue::json_text(onload_value())),
    {
        let mut jv = Json::new_object();
        jv.set("foo", Json::from_str("Mee"));
        jv.set("hee", Json::from_str("Moo Onload"));
        let s = jvalue::to_text(&jv);
        text::to_bytes(s.as_str())
    }

    /// Saves the page data that the body holds: replaces the page's data
    /// and writes the page anew from it (`Page::page_json_update_save`,
    /// whose backup name comes with the reply; the caller writes the files).
    pub fn page_json_save(&mut self) -> (r: Result<(Vec<u8>, String), String>)
        ensures
            final(self).request == old(self).request,
            body_value(old(self).request) is None ==> (r matches Err(e) && e@ == "body_json_value not found"@),
            body_value(old(self).request) is Some && old(self).page.page_json is None ==> (r matches Err(e)
                && e@ == "page.page_json_replace failed"@),
            body_value(old(self).request) is Some && old(self).page.page_json is Some ==> ({
                let v = body_value(old(self).request)->Some_0;
                let pj = old(self).page.page_json->Some_0;
                if page::update_fails(pj.rev, pj.rev_next, v) {
                    r matches Err(e) && e@ == "page.page_json_update_save failed"@
                } else {
                    r matches Ok(x) && x.0@ == text::bytes_of(JSON_SAVE_REPLY@)
                        && page::update_saved(old(self).page.file.filename_spec(), pj.rev, pj.rev_next, v, final(self).page, x.1@)
                }
            }),
    {
        let page_json = match self.request.body_json_value() {
            Some(v) => v,
            None => return Err(String::from_str("body_json_value not found")),
        };
        if let Err(_) = self.page.page_json_replace(page_json) {
            return Err(String::from_str("page.page_json_replace failed"));
        }
        let name = match self.page.page_json_update_save() {
            Ok(n) => n,
            Err(_) => return Err(String::from_str("page.page_json_update_save failed")),
        };
        Ok((text::to_bytes(JSON_SAVE_REPLY), name))
    }

    /// The title and href of the new page that the body names.
    fn page_new_request(&self) -> (r: Result<(String, String), String>)
        ensures
            match page_new_request_spec(self.request) {
                Err(e) => r matches Err(x) && x@ == e,
                Ok((t, h)) => r matches Ok(x) && x.0@ == t && x.1@ == h,
            },
    {
        let req = match self.request.body_json_value() {
            Some(v) => v,
            None => return Err(String::from_str("request.body_json_value failed")),
        };
        let title = match req.get("title") {
            Some(t) => match t.as_str() {
                Some(s) => String::from_str(s),
                None => return Err(String::from_str("req.title not found")),
            },
            None => return Err(String::from_str("req.title not found")),
        };
        let href = match req.get("href") {
            Some(t) => match t.as_str() {
                Some(s) => String::from_str(s),
                None => return Err(String::from_str("req.href not found")),
            },
            None => return Err(String::from_str("req.href not found")),
        };
        Ok((title, href))
    }

    /// The URL of the new page that the body asks for; the caller reads
    /// its file for `page_new`.
    pub fn page_new_url(&self) -> (r: Result<String, String>)
        ensures
            match page_new_url_spec(self.request, self.page.url@) {
                Err(e) => r matches Err(x) && x@ == e,
                Ok(u) => r matches Ok(x) && x@ == u,
            },
    {
        let (title, href) = match self.page_new_request() {
            Ok(v) => v,
            Err(e) => return Err(e),
        };
        match page_utility::page_sub_new_url(&self.page, title.as_str(), href.as_str()) {
            Ok(u) => Ok(u),
            Err(_) => Err(String::from_str("page_new failed")),
        }
    }

    /// Makes the new page that the body names (`title`, `href`) below this
    /// page, its file holding `child_content`, and writes it from its data
    /// (`Page::page_json_update_save`, whose outcome comes with the reply,
    /// as does the page; the caller writes the files when it went
    /// through).  `Err` when the body names no page, or none can be made
    /// there.
    pub fn page_new(&mut self, child_content: Option<Vec<u8>>) -> (r: Result<(Vec<u8>, Page, Result<String, ()>), String>)
        ensures
            *final(self) == *old(self),
            match page_new_request_spec(old(self).request) {
                Err(e) => r matches Err(x) && x@ == e,
                Ok((t, h)) => match page_utility::page_sub_new_url_spec(old(self).page.url@, t, h) {
                    Err(_) => r matches Err(x) && x@ == "page_new failed"@,
                    Ok(url) => {
                        let titled = jvalue::set3(
                            page_utility::new_page_data(page_utility::opt_bytes(child_content)),
                            "data"@,
                            "page"@,
                            "title"@,
                            jvalue::str_val(text::trim_spec(t)),
                        );
                        match page_utility::navi_inherit_and_child_spec(old(self).page, url, Some(titled)) {
                            Err(_) => r matches Err(x) && x@ == "page_new failed"@,
                            Ok(navi) => r matches Ok(x) && {
                                let data = jvalue::set2(titled, "data"@, "navi"@, navi);
                                &&& x.0@ == text::bytes_of(PAGE_NEW_REPLY@)
                                &&& x.1.url@ == url
                                &&& (page::update_fails(None, None, data) <==> x.2 is Err)
                                &&& (x.2 matches Ok(name) ==> page::update_saved(page::filename_of(url), None, None, data, x.1, name@))
                                &&& (x.2 is Err ==> (x.1.page_json matches Some(pj) && pj.page_json@ == data))
                            },
                        }
                    },
                },
            },
    {
        let (title, href) = match self.page_new_request() {
            Ok(v) => v,
            Err(e) => return Err(e),
        };
        let mut page_new = match self.page.page_sub_new(title.as_str(), href.as_str(), child_content) {
            Ok(v) => v,
            Err(_) => return Err(String::from_str("page_new failed")),
        };
        let saved = page_new.page_json_update_save();
        Ok((text::to_bytes(PAGE_NEW_REPLY), page_new, saved))
    }

    /// What the request of a link (`href` in the body) leads to.  The
    /// caller follows it with `HrefInspec` (`href_inspec`).
    pub fn href_req(&self) -> (r: HrefRequest)
        ensures
            match href_request_spec(self.request) {
                Err(e) => r matches HrefRequest::Refused(x) && x@ == e,
                Ok(None) => r is NoHref,
                Ok(Some((c, h, u))) => r matches HrefRequest::Target { caller_url, url_req, req_url }
                    && caller_url@ == c && url_req@ == h && req_url@ == u,
            },
    {
        let caller_url = match self.request.url() {
            Some(v) => v,
            None => return HrefRequest::Refused(String::from_str("request.url failed")),
        };
        let req = match self.request.body_json_value() {
            Some(v) => v,
            None => return HrefRequest::Refused(String::from_str("request.body_json_value not found")),
        };
        let url_req = match req.get("href") {
            Some(h) => match h.as_str() {
                Some(s) => String::from_str(s),
                None => return HrefRequest::NoHref,
            },
            None => return HrefRequest::NoHref,
        };
        match href_inspec::HrefInspec::req_url(caller_url.as_str(), url_req.as_str()) {
            Some(req_url) => HrefRequest::Target { caller_url, url_req, req_url },
            None => HrefRequest::Refused(String::from_str("href_indpec5 failed")),
        }
    }

    /// What the move request in the body names (`Page::page_move2`): the
    /// parent's URL and the destination's.  The caller moves the page
    /// (`page_utility::page_move2`) and answers `PAGE_MOVE_REPLY`.
    pub fn page_move(&self) -> (r: Result<(Option<String>, String), String>)
        ensures
            body_value(self.request) is None ==> (r matches Err(e) && e@ == "request.body_json_value failed"@),
            body_value(self.request) matches Some(v) ==> match page::page_move2_request_spec(self.page.url@, v) {
                Err(e) => r matches Err(x) && x@ == e,
                Ok((p, d)) => r matches Ok(x) && http_request::opt_text(x.0) == p && x.1@ == d,
            },
    {
        let req = match self.request.body_json_value() {
            Some(v) => v,
            None => return Err(String::from_str("request.body_json_value failed")),
        };
        self.page.page_move2(&req)
    }

    /// The page to serve, once the system update has been applied
    /// (`Page::source`), with what the update leaves to write.
    pub fn get_handle(&mut self, updated: bool) -> (r: (Option<Vec<u8>>, Option<UpdateSaves>))
        ensures
            final(self).request == old(self).request,
            crate::page::page_system_update::update_spec(old(self).page, updated, final(self).page, r.1),
            page_utility::opt_bytes(r.0) == final(self).page.file.bytes_spec(),
    {
        self.page.source(updated)
    }
}

} // verus!
