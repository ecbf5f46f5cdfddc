use wc::jvalue::{self, Json};
use wc::page::Page;
use wc::page::page_json_utility as pju;
use wc::page::dom_to_json_utility as dju;
use wc::wc_handler::{self, Handler, HrefRequest, Post, Route};
use wc::wc_handler::http_request::HttpRequest;
use wc::wc_handler::href_inspec::{DestStep, HrefInspec};
use wc::js_css;

const HOST_URL: &str = "https://127.0.0.1:8080/a.html";

fn request(method: &str, path: &str, wc_request: Option<&str>, body: &str) -> (HttpRequest, String) {
    let mut raw = format!("{} {} HTTP/1.1\r\nHost: 127.0.0.1:8080\r\n", method, path);
    if let Some(w) = wc_request {
        raw.push_str(&format!("wc-request: {}\r\n", w));
    }
    raw.push_str(&format!("Content-Length: {}\r\n\r\n{}", body.len(), body));
    wc_handler::request_of(raw.as_bytes()).unwrap()
}

fn saved_page_html(url: &str) -> Vec<u8> {
    let mut p = Page::new(url, None);
    p.page_json_update_save().unwrap();
    p.file().content_bytes().unwrap().clone()
}

fn wc_html() -> Vec<u8> {
    b"<html><body><div class=\"subsection\"></div></body></html>".to_vec()
}

fn reply_of(route: Route) -> Vec<u8> {
    match route {
        Route::Reply(b) => b,
        _ => panic!("no reply"),
    }
}

fn refusal(e: &str) -> Vec<u8> {
    let body = format!("{{\"res\":\"{}\"}}", e);
    format!("HTTP/1.1 200 OK\r\nContent-Length: {}\r\n\r\n{}", body.len(), body).into_bytes()
}

#[test]
fn replies_carry_their_length() {
    assert_eq!(wc_handler::response_200(&b"abc".to_vec()), b"HTTP/1.1 200 OK\r\nContent-Length: 3\r\n\r\nabc".to_vec());
    assert_eq!(wc_handler::response_404(), b"HTTP/1.1 404 Not Found\r\nContent-Length: 10\r\n\r\nNot Found.".to_vec());
    assert_eq!(wc_handler::post_reply(Err("x".to_string())), refusal("x"));
    assert_eq!(wc_handler::post_reply(Ok(b"{}".to_vec())), b"HTTP/1.1 200 OK\r\nContent-Length: 2\r\n\r\n{}".to_vec());
    wc_handler::system_ini();
}

#[test]
fn requests_are_read() {
    let (q, url) = request("GET", "/a.html", None, "");
    assert_eq!(url, HOST_URL);
    assert_eq!(q.method, "GET");
    assert_eq!(q.path, "/a.html");
    assert_eq!(q.header("Host").map(|s| s.as_str()), Some("127.0.0.1:8080"));
    assert!(wc_handler::request_of(b"garbage").is_none());
    assert!(wc_handler::request_of(b"GET /a.html HTTP/1.1\r\n\r\n").is_none());
    assert!(wc_handler::request_of(b"GET /a.html HTTP/1.1\r\nHost: x\r\n").is_none());
    let two = HttpRequest::from(b"GET / HTTP/1.1\r\nX: 1\r\nX: 2\r\n\r\nbody &lt;").unwrap();
    assert_eq!(two.header("X").map(|s| s.as_str()), Some("2"));
    assert_eq!(two.header("Y"), None);
    assert_eq!(two.body_string(), "body &lt;");
    assert!(two.body_json_value().is_none());
    let js = HttpRequest::from(b"POST / HTTP/1.1\r\n\r\n{\"a\":\"&lt;b&gt;\"}").unwrap();
    assert_eq!(js.body_json_value().unwrap().get("a").unwrap().as_str(), Some("<b>"));
    assert_eq!(js.url(), None);
}

#[test]
fn routes() {
    let (q, url) = request("GET", "/a.html", None, "");
    let mut h = Handler::new(q, &url, Some(wc_html()));
    assert!(matches!(h.response(), Route::Get));
    let (q, url) = request("DELETE", "/a.html", None, "");
    let mut h = Handler::new(q, &url, Some(wc_html()));
    assert_eq!(reply_of(h.response()), wc_handler::response_404());
    let (q, url) = request("POST", "/a.html", Some("onload"), "");
    let mut h = Handler::new(q, &url, Some(b"<html><body>plain</body></html>".to_vec()));
    assert_eq!(reply_of(h.response()), refusal("not wc_page"));
    let (q, url) = request("POST", "/a.html.01", Some("onload"), "");
    let mut h = Handler::new(q, &url, Some(wc_html()));
    assert_eq!(reply_of(h.response()), refusal("backup file"));
    let (q, url) = request("POST", "/a.html", None, "");
    let mut h = Handler::new(q, &url, Some(wc_html()));
    assert_eq!(reply_of(h.response()), refusal("wc-request not found"));
    let (q, url) = request("POST", "/a.html", Some("other"), "");
    let mut h = Handler::new(q, &url, Some(wc_html()));
    assert_eq!(reply_of(h.response()), refusal("request does not match"));
    let (q, url) = request("POST", "/a.html", Some("onload"), "");
    let mut h = Handler::new(q, &url, Some(wc_html()));
    let body = "{\"foo\":\"Mee\",\"hee\":\"Moo Onload\"}";
    assert_eq!(reply_of(h.response()), wc_handler::response_200(&body.as_bytes().to_vec()));
    for (w, p) in [("json_save", 0), ("page_new", 1), ("href", 2), ("page_move", 3)] {
        let (q, url) = request("POST", "/a.html", Some(w), "");
        let mut h = Handler::new(q, &url, Some(wc_html()));
        let got = match h.response() {
            Route::Post(Post::JsonSave) => 0,
            Route::Post(Post::PageNew) => 1,
            Route::Post(Post::Href) => 2,
            Route::Post(Post::PageMove) => 3,
            _ => 9,
        };
        assert_eq!(got, p);
    }
}

#[test]
fn json_save_outcomes() {
    let (q, url) = request("POST", "/a.html", Some("json_save"), "not json");
    let mut h = Handler::new(q, &url, Some(wc_html()));
    assert_eq!(h.page_json_save().err(), Some("body_json_value not found".to_string()));
    let blank = jvalue::to_text(&pju::page_json_blank());
    let (q, url) = request("POST", "/a.html", Some("json_save"), &blank);
    let mut h = Handler::new(q, &url, Some(wc_html()));
    assert_eq!(h.page_json_save().err(), Some("page.page_json_replace failed".to_string()));
    let (q, url) = request("POST", "/a.html", Some("json_save"), &blank);
    let mut h = Handler::new(q, &url, Some(saved_page_html(HOST_URL)));
    let (reply, name) = h.page_json_save().unwrap();
    assert_eq!(reply, wc_handler::JSON_SAVE_REPLY.as_bytes().to_vec());
    assert_eq!(name, "pages/a.html.1");
}

#[test]
fn page_new_outcomes() {
    let cases = [
        ("not json", "request.body_json_value failed"),
        ("{}", "req.title not found"),
        ("{\"title\":\"T\"}", "req.href not found"),
        ("{\"title\":\" \",\"href\":\"b.html\"}", "page_new failed"),
    ];
    for (body, e) in cases {
        let (q, url) = request("POST", "/a.html", Some("page_new"), body);
        let mut h = Handler::new(q, &url, Some(saved_page_html(HOST_URL)));
        assert_eq!(h.page_new_url().err(), Some(e.to_string()));
        assert_eq!(h.page_new(None).err(), Some(e.to_string()));
    }
    let (q, url) = request("POST", "/a.html", Some("page_new"), "{\"title\":\"New\",\"href\":\"b.html\"}");
    let mut h = Handler::new(q, &url, Some(saved_page_html(HOST_URL)));
    assert_eq!(h.page_new_url(), Ok("https://127.0.0.1:8080/b.html".to_string()));
    let (reply, child, saved) = h.page_new(None).unwrap();
    assert_eq!(reply, wc_handler::PAGE_NEW_REPLY.as_bytes().to_vec());
    assert_eq!(child.url, "https://127.0.0.1:8080/b.html");
    assert_eq!(saved, Ok("pages/b.html.1".to_string()));
}

#[test]
fn href_request_outcomes() {
    let (q, url) = request("POST", "/a.html", Some("href"), "not json");
    let h = Handler::new(q, &url, None);
    assert!(matches!(h.href_req(), HrefRequest::Refused(e) if e == "request.body_json_value not found"));
    let (q, url) = request("POST", "/a.html", Some("href"), "{\"x\":1}");
    let h = Handler::new(q, &url, None);
    assert!(matches!(h.href_req(), HrefRequest::NoHref));
    let (q, url) = request("POST", "/a.html", Some("href"), "{\"href\":\"b.html#s\"}");
    let h = Handler::new(q, &url, None);
    match h.href_req() {
        HrefRequest::Target { caller_url, url_req, req_url } => {
            assert_eq!(caller_url, HOST_URL);
            assert_eq!(url_req, "b.html#s");
            assert_eq!(req_url, "https://127.0.0.1:8080/b.html#s");
        },
        _ => panic!("no target"),
    }
}

#[test]
fn page_move_outcomes() {
    let (q, url) = request("POST", "/a.html", Some("page_move"), "not json");
    let h = Handler::new(q, &url, None);
    assert_eq!(h.page_move(), Err("request.body_json_value failed".to_string()));
    let (q, url) = request("POST", "/a.html", Some("page_move"), "{\"parent_url\":\"\",\"dest_url\":\"c.html\"}");
    let h = Handler::new(q, &url, None);
    assert_eq!(h.page_move(), Ok((None, "https://127.0.0.1:8080/c.html".to_string())));
}

#[test]
fn get_serves_the_file() {
    let (q, url) = request("GET", "/a.html", None, "");
    let mut h = Handler::new(q, &url, Some(wc_html()));
    let (bytes, saves) = h.get_handle(false);
    assert_eq!(bytes, Some(wc_html()));
    assert!(saves.is_none());
    let (q, url) = request("GET", "/a.html", None, "");
    let mut h = Handler::new(q, &url, None);
    assert_eq!(h.get_handle(true).0, None);
}

fn page_with(url: &str, data: Json) -> Page {
    let mut p = Page::new(url, None);
    p.page_json_replace(data).unwrap();
    p
}

#[test]
fn hist_refuses_a_url_twice() {
    let caller = Page::new("http://127.0.0.1/a.html", None);
    let req = Page::new("http://127.0.0.1/b.html#x", None);
    let mut hi = HrefInspec::from(caller, "b.html#x", req);
    assert_eq!(hi.hist(), Ok(()));
    assert_eq!(hi.hist(), Err(()));
    assert_eq!(hi.hist.as_ref().unwrap().len(), 1);
    let mut empty = HrefInspec::from(Page::new("http://127.0.0.1/a.html", None), "", Page::from("", None));
    assert_eq!(empty.hist(), Err(()));
}

#[test]
fn destinations() {
    let caller_url = "http://127.0.0.1/a.html";
    let mut plain = HrefInspec::from(Page::new(caller_url, None), "b.html", Page::new("http://127.0.0.1/b.html", None));
    assert!(matches!(plain.dest(), DestStep::Found(Some(d), Some(v)) if d == "http://127.0.0.1/b.html" && v == caller_url));

    let mut j = pju::page_json_blank();
    dju::ss_json_new(&mut j, "#s1", 0);
    let mut r = Json::new_object();
    r.set("#s2", Json::from_str("c.html#s3"));
    j.set2("data", "href_reference", r);
    let req_url = "http://127.0.0.1/b.html#s1";
    let mut sub = HrefInspec::from(Page::new(caller_url, None), "b.html#s1", page_with(req_url, j.deep_clone()));
    assert!(matches!(sub.dest(), DestStep::Found(Some(d), Some(v)) if d == req_url && v == caller_url));

    let mut follow = HrefInspec::from(Page::new(caller_url, None), "b.html#s2", page_with("http://127.0.0.1/b.html#s2", j.deep_clone()));
    assert_eq!(follow.in_hash_reference(), Some("c.html#s3".to_string()));
    match follow.dest() {
        DestStep::Follow { caller_url: c, req_url_str, req_url, hist } => {
            assert_eq!(c, "http://127.0.0.1/b.html#s2");
            assert_eq!(req_url_str, "c.html#s3");
            assert_eq!(req_url, "http://127.0.0.1/c.html#s3");
            assert_eq!(hist, Some(vec!["http://127.0.0.1/b.html#s2".to_string()]));
        },
        _ => panic!("no reference followed"),
    }

    let mut top = HrefInspec::from(Page::new(caller_url, None), "b.html#top", page_with("http://127.0.0.1/b.html#top", j.deep_clone()));
    assert!(matches!(top.dest(), DestStep::Found(Some(_), Some(_))));
    let mut lost = HrefInspec::from(Page::new(caller_url, None), "b.html#zz", page_with("http://127.0.0.1/b.html#zz", j));
    assert!(matches!(lost.dest(), DestStep::Found(None, None)));
}

#[test]
fn link_reply_and_update() {
    let caller_url = "http://127.0.0.1/a.html";
    let mut data = pju::page_json_blank();
    data.set3("data", "page", "title", Json::from_str("<a href=\"old.html\">x</a>"));
    let caller = page_with(caller_url, data);
    let mut hi = HrefInspec::from(caller, "old.html", Page::new("http://127.0.0.1/old.html", None));
    let (bytes, saves) = hi.href_req_handle(Some("http://127.0.0.1/b.html#s1".to_string()), Some("http://127.0.0.1/new/old.html".to_string()));
    assert_eq!(bytes, b"{\"dest\":\"/b.html\"}".to_vec());
    let saves = saves.unwrap();
    assert_eq!(saves.current_backup, Some("pages/a.html.0".to_string()));
    assert_eq!(saves.update_backup, Ok("pages/a.html.1".to_string()));
    let title = hi.caller_page.page_json.as_ref().unwrap().value().get3("data", "page", "title").unwrap().as_str().unwrap().to_string();
    assert_eq!(title, "<a href=\"new/old.html\">x</a>");

    let mut same = HrefInspec::from(Page::new(caller_url, None), "old.html", Page::new("http://127.0.0.1/old.html", None));
    let (bytes, saves) = same.href_req_handle(None, Some("http://127.0.0.1/old.html".to_string()));
    assert_eq!(bytes, b"{}".to_vec());
    assert!(saves.is_none());
}

#[test]
fn script_and_style_files() {
    let files = js_css::setup(" let a = 1; \n", "\nbody {}\n");
    assert_eq!(files.len(), 2);
    assert_eq!(files[0], ("pages/wc.js".to_string(), b"let a = 1;".to_vec()));
    assert_eq!(files[1], ("pages/wc.css".to_string(), b"body {}".to_vec()));
}

#[test]
fn a_circle_of_references_ends() {
    let mut pj = pju::page_json_blank();
    let mut r = Json::new_object();
    r.set("#x", Json::from_str("q.html#y"));
    pj.set2("data", "href_reference", r);
    let mut qj = pju::page_json_blank();
    let mut r = Json::new_object();
    r.set("#y", Json::from_str("p.html#x"));
    qj.set2("data", "href_reference", r);
    let p_url = "http://127.0.0.1/p.html#x";
    let q_url = "http://127.0.0.1/q.html#y";
    let mut first = HrefInspec::from(Page::new("http://127.0.0.1/a.html", None), "p.html#x", page_with(p_url, pj.deep_clone()));
    let (c, s, u, h) = match first.dest() {
        DestStep::Follow { caller_url, req_url_str, req_url, hist } => (caller_url, req_url_str, req_url, hist),
        _ => panic!("no reference followed"),
    };
    assert_eq!(u, q_url);
    let mut second = HrefInspec::from_step(page_with(&c, pj.deep_clone()), &s, page_with(&u, qj.deep_clone()), h);
    let (c, s, u, h) = match second.dest() {
        DestStep::Follow { caller_url, req_url_str, req_url, hist } => (caller_url, req_url_str, req_url, hist),
        _ => panic!("no reference followed"),
    };
    assert_eq!(u, p_url);
    assert_eq!(h.as_ref().unwrap().len(), 2);
    let mut third = HrefInspec::from_step(page_with(&c, qj), &s, page_with(&u, pj), h);
    assert!(matches!(third.dest(), DestStep::Found(None, None)));
}
