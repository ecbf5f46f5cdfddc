use wc::jvalue::{self, Json};
use wc::page::Page;
use wc::page::page_file::{self, PageFile, SaveRefusal};
use wc::page::page_json_utility as pju;
use wc::page::page_utility;
use wc::page::dom_to_json_utility as dju;
use wc::page::page_system_update;
use wc::page::page_dom::PageDom;
use wc::page::json_to_dom;
use wc::page::dom_to_json;
use wc::page::dom::NodeKind;

const URL: &str = "http://127.0.0.1/a.html";

fn text_of(j: &Json) -> String {
    jvalue::to_text(j)
}

#[test]
fn file_names_of_pages() {
    assert_eq!(Page::filename_for("http://127.0.0.1:8080/abc/def.html"), "pages/abc/def.html");
    let p = Page::from("http://127.0.0.1/a.html.01", None);
    assert!(p.name_end_num());
    let q = Page::from(URL, None);
    assert!(!q.name_end_num());
    assert_eq!(q.file().filename(), "pages/a.html");
}

#[test]
fn page_without_file_has_no_data() {
    let p = Page::from(URL, None);
    assert!(p.page_json.is_none());
    assert!(p.file().content_bytes().is_none());
    let n = Page::new(URL, None);
    let pj = n.page_json.as_ref().unwrap();
    assert_eq!(text_of(pj.value()), text_of(&pju::page_json_blank()));
}

#[test]
fn system_pages_are_recognised() {
    let html = b"<html><body><div id=\"naviBase\"></div></body></html>".to_vec();
    let mut p = Page::from(URL, Some(html));
    assert!(p.is_wc_page());
    let mut q = Page::from(URL, Some(b"<html><body>plain</body></html>".to_vec()));
    assert!(!q.is_wc_page());
    let mut r = Page::from(URL, Some(b"naviBase".to_vec()));
    assert!(!r.is_wc_page());
    let mut s = Page::from(URL, None);
    assert!(!s.is_wc_page());
}

#[test]
fn save_moves_revision_on_and_reads_back() {
    let mut p = Page::new(URL, None);
    let name = p.page_json_update_save().unwrap();
    assert_eq!(name, "pages/a.html.1");
    let rev = p.page_json.as_ref().unwrap().value().get3("data", "page", "rev").unwrap().as_u32();
    assert_eq!(rev, Some(1));
    let html = p.file().content_str().unwrap().to_string();
    assert!(html.starts_with("<!DOCTYPE html>"));
    let mut back = Page::from(URL, Some(html.into_bytes()));
    let data = back.page_json.as_mut().unwrap();
    assert_eq!(data.rev(), 1);
    assert_eq!(text_of(data.value()), text_of(p.page_json.as_ref().unwrap().value()));
    let again = back.page_json_update_save().unwrap();
    assert_eq!(again, "pages/a.html.2");
}

#[test]
fn current_save_names_the_backup() {
    let mut p = Page::new(URL, None);
    assert_eq!(p.page_current_save(), Some("pages/a.html.0".to_string()));
    let mut q = Page::from(URL, None);
    assert_eq!(q.page_current_save(), None);
    assert!(q.page_json_update_save().is_err());
    assert!(q.page_json_replace(Json::new_object()).is_err());
}

#[test]
fn sub_page_refusals() {
    let mut p = Page::new(URL, None);
    assert_eq!(p.page_sub_new("  ", "b.html", None).err(), Some("no child title".to_string()));
    assert_eq!(p.page_sub_new("T", " #x", None).err(), Some("child href starts with #".to_string()));
    assert_eq!(p.page_sub_new("T", "  ", None).err(), Some("child href.len is 0".to_string()));
}

#[test]
fn sub_page_is_titled_and_placed() {
    let parent = Page::new(URL, None);
    assert_eq!(
        page_utility::page_sub_new_url(&parent, " Child ", " sub/child.html "),
        Ok("http://127.0.0.1/sub/child.html".to_string())
    );
    let child = page_utility::page_sub_new(&parent, " Child ", " sub/child.html ", None).unwrap();
    assert_eq!(child.url, "http://127.0.0.1/sub/child.html");
    assert_eq!(child.file().filename(), "pages/sub/child.html");
    let data = child.page_json.as_ref().unwrap().value();
    assert_eq!(data.get3("data", "page", "title").unwrap().as_str(), Some("Child"));
    assert!(data.get2("data", "navi").unwrap().as_array().is_some());
}

#[test]
fn move_request_is_read() {
    let p = Page::new(URL, None);
    let req = jvalue::parse("{\"parent_url\":\" \",\"dest_url\":\"b/c.html\"}").unwrap();
    assert_eq!(p.page_move2(&req), Ok((None, "http://127.0.0.1/b/c.html".to_string())));
    let req2 = jvalue::parse("{\"parent_url\":\"top.html\",\"dest_url\":\"c.html\"}").unwrap();
    assert_eq!(
        p.page_move2(&req2),
        Ok((Some("http://127.0.0.1/top.html".to_string()), "http://127.0.0.1/c.html".to_string()))
    );
    let bad = jvalue::parse("{\"dest_url\":\"c.html\"}").unwrap();
    assert_eq!(p.page_move2(&bad), Err("page5.page_move2 req.parent_url failed".to_string()));
    let bad2 = jvalue::parse("{\"parent_url\":\"\"}").unwrap();
    assert_eq!(p.page_move2(&bad2), Err("page5.page_move2 req.dest_url failed".to_string()));
}

#[test]
fn entity_references_decoded() {
    assert_eq!(pju::page_json_str_decode("&lt;a&gt; &amp;lt;"), "<a> &lt;");
}

#[test]
fn page_data_found_in_content() {
    let script = "<html><head><script class=\"page_json\">let page_json = {\"a\":1}</script></head><body></body></html>";
    assert_eq!(pju::fined_page_json_str(script), Some("{\"a\":1}"));
    let v = pju::page_json_value_from_content(script).unwrap();
    assert_eq!(v.get("a").unwrap().as_u32(), Some(1));
    let span = "<body><span id=\"page_json_str\" style=\"display: none\">{&quot;b&quot;:2}</span></body>";
    assert!(pju::fined_page_json_str(span).is_some());
    assert!(pju::fined_page_json_str("<body>nothing</body>").is_none());
    assert!(pju::page_json_value_from_str("").is_none());
}

#[test]
fn page_file_content() {
    let mut f = PageFile::open("pages/x.html", Some(b"abc".to_vec()), false);
    assert_eq!(f.filename(), "pages/x.html");
    assert_eq!(f.content_str(), Some("abc"));
    assert!(f.contains("b"));
    assert!(!f.contains("z"));
    f.content_str_replace("é");
    assert_eq!(f.content_bytes(), Some(&vec![0xc3, 0xa9]));
    assert_eq!(f.content_str_to_save(), Ok("é"));
    f.content_bytes_replace(vec![0xff]);
    assert_eq!(f.content_str(), None);
    assert_eq!(f.content_str_to_save(), Err(SaveRefusal::NoContent));
    assert_eq!(f.bytes_to_save_as(), Ok(&vec![0xff]));
    let d = PageFile::open("pages/y.html", Some(b"y".to_vec()), true);
    assert_eq!(d.content_str_to_save(), Err(SaveRefusal::DebugMode));
    assert_eq!(d.bytes_to_save_as(), Err(SaveRefusal::DebugMode));
    let n = PageFile::open("pages/z.html", None, false);
    assert_eq!(n.bytes_to_save_as(), Err(SaveRefusal::NoContent));
}

#[test]
fn directory_of_a_file() {
    assert_eq!(page_file::dir_part("pages/abc/def.html"), Some("pages/abc"));
    assert_eq!(page_file::dir_part("name"), None);
}

#[test]
fn new_subsection_is_found_by_href() {
    let mut j = pju::page_json_blank();
    let id = dju::ss_json_new(&mut j, "abc", 0);
    assert_eq!(id, "1");
    assert_eq!(dju::ss_json_href(&j, "abc"), Some("1".to_string()));
    let again = dju::ss_json_new(&mut j, "abc", 0);
    assert_eq!(again, "1");
    let other = dju::ss_json_new(&mut j, "def", 1);
    assert_eq!(other, "2");
    assert_eq!(dju::ss_json_href(&j, "zzz"), None);
}

#[test]
fn system_update_of_a_page() {
    let mut p = Page::new(URL, None);
    assert!(page_system_update::update(&mut p, true).is_none());
    let mut q = Page::new(URL, Some(b"<html><body></body></html>".to_vec()));
    assert!(page_system_update::update(&mut q, false).is_none());
    let saves = page_system_update::update(&mut q, true).unwrap();
    assert_eq!(saves.current_backup, Some("pages/a.html.0".to_string()));
    assert_eq!(saves.current_bytes, Some(b"<html><body></body></html>".to_vec()));
    assert_eq!(saves.update_backup, Ok("pages/a.html.1".to_string()));
}

#[test]
fn sub_page_keeps_existing_revision() {
    let mut old = Page::new("http://127.0.0.1/b.html", None);
    old.page_json_update_save().unwrap();
    let html = old.file().content_bytes().unwrap().clone();
    let parent = Page::new(URL, None);
    let child = page_utility::page_sub_new(&parent, "T", "b.html", Some(html)).unwrap();
    let rev = child.page_json.as_ref().unwrap().value().get3("data", "page", "rev").unwrap().as_u32();
    assert_eq!(rev, Some(1));
}

#[test]
fn second_subsection_request_changes_nothing() {
    let mut j = pju::page_json_blank();
    let id = dju::ss_json_new(&mut j, "abc", 0);
    let before = text_of(&j);
    let again = dju::ss_json_new(&mut j, "abc", 7);
    assert_eq!(again, id);
    assert_eq!(text_of(&j), before);
}

#[test]
fn html_is_parsed_and_written() {
    let d = PageDom::new("<p>x</p>");
    assert_eq!(d.to_html(), "<!DOCTYPE html><html><head></head><body><p>x</p></body></html>");
    assert!(d.head().is_some());
    assert!(d.body().is_some());
    let e = PageDom::new("<html><body><script>a < b</script></body></html>");
    assert_eq!(e.to_html(), "<!DOCTYPE html><html><head></head><body><script>a < b</script></body></html>");
}

#[test]
fn page_made_from_data_holds_the_data() {
    let blank = pju::page_json_blank();
    let d = json_to_dom::json_to_dom(&blank);
    assert_eq!(d.span_page_json_str(), Some(jvalue::to_text(&blank)));
    let html = d.to_html();
    assert!(html.contains("page_json"));
    let back = pju::page_json_value_from_content(&html).unwrap();
    assert_eq!(text_of(&back), text_of(&blank));
}

#[test]
fn old_page_revision_is_read() {
    let d = PageDom::new("<html><body><pre id=\"editModeRevCount\" class=\"invisible\">6</pre></body></html>");
    let j = dom_to_json::dom_to_json(&d.dom);
    assert_eq!(j.get3("data", "page", "rev").unwrap().as_u32(), Some(6));
    let e = PageDom::new("<html><body><pre id=\"editModeRevCount\">x</pre></body></html>");
    let k = dom_to_json::dom_to_json(&e.dom);
    assert_eq!(k.get3("data", "page", "rev").unwrap().as_u32(), Some(0));
}

#[test]
fn numbers_read_from_values() {
    let mut n = Json::from_str("41");
    assert_eq!(dju::json_value_to_u32(&mut n), 41);
    let mut x = Json::from_str("x");
    assert_eq!(dju::json_value_to_u32(&mut x), 0);
    assert_eq!(pju::v_to_u32(&Json::from_u32(7)), Some(7));
    assert_eq!(pju::v_to_u32(&Json::from_str("7")), None);
    assert_eq!(pju::n_to_int(&Json::from_str("12")), Ok(12));
    assert_eq!(pju::n_to_int(&Json::new_object()), Err(()));
    let mut c = Json::from_u32(5);
    assert_eq!(pju::num_plus(&mut c, 3), 8);
    assert_eq!(c.as_u32(), Some(8));
    let mut s = Json::from_str("no");
    assert_eq!(pju::num_plus(&mut s, 3), 3);
    assert_eq!(s.as_str(), Some("no"));
    let mut big = Json::from_u32(4294967295);
    assert_eq!(pju::num_plus_checked(&mut big, 1), None);
    assert_eq!(big.as_u32(), Some(4294967295));
    assert_eq!(pju::num_plus_checked(&mut big, 0), Some(4294967295));
}

#[test]
fn page_data_in_old_places() {
    let d = PageDom::new("<html><body><div class=\"page_json\">let page_json = {\"a\":2}</div></body></html>");
    let v = wc::page::page_dom_utility::json_in_javascript(&d.dom).unwrap();
    assert_eq!(v.get("a").unwrap().as_u32(), Some(2));
    let none = PageDom::new("<html><body><div class=\"other\">x</div></body></html>");
    assert!(wc::page::page_dom_utility::json_in_javascript(&none.dom).is_err());
    let s = PageDom::new("<html><body><span id=\"page_json_str\" style=\"display: none\">{\"b\":3}</span></body></html>");
    assert_eq!(s.span_page_json_str(), Some("{\"b\":3}".to_string()));
    assert!(d.span_page_json_str().is_none());
}

#[test]
fn entity_references_of_pages() {
    let u = wc::page::page_dom_utility::entity_reference_unset("x &lt;y&gt; &amp;");
    assert_eq!(u, "x <y> &amp;");
    assert_eq!(wc::page::page_dom_utility::entity_reference_replacement("&gt;"), ">");
    assert_eq!(wc::page::page_dom_utility::entity_reference_replacement("&q;"), "&q;");
}

#[test]
fn empty_text_parses_to_html_head_body() {
    let d = PageDom::new("");
    assert!(matches!(d.dom.data, NodeKind::Document));
    assert_eq!(d.dom.children.len(), 1);
    let html = &d.dom.children[0];
    let names: Vec<(String, String, Option<String>, usize, usize)> = std::iter::once(html)
        .chain(html.children.iter())
        .map(|n| match &n.data {
            NodeKind::Element { name, attrs } => (name.local.clone(), name.ns.clone(), name.prefix.clone(), attrs.len(), n.children.len()),
            _ => panic!("no element"),
        })
        .collect();
    let ns = "http://www.w3.org/1999/xhtml".to_string();
    assert_eq!(names, vec![
        ("html".to_string(), ns.clone(), None, 0, 2),
        ("head".to_string(), ns.clone(), None, 0, 0),
        ("body".to_string(), ns.clone(), None, 0, 0),
    ]);
}

#[test]
fn path_written_is_read_back() {
    let mut j = Json::new_object();
    j.set_path(&["a", "b", "c"], Json::from_u32(3));
    assert_eq!(j.get_path(&["a", "b", "c"]).unwrap().as_u32(), Some(3));
    assert_eq!(j.str_at(&["a", "b", "c"]), None);
    j.set_path(&["a", "b", "d"], Json::from_str("x"));
    assert_eq!(j.str_at(&["a", "b", "d"]), Some("x"));
    assert_eq!(j.get_path(&["a", "b", "c"]).unwrap().as_u32(), Some(3));
    assert_eq!(jvalue::to_text(&j), "{\"a\":{\"b\":{\"c\":3,\"d\":\"x\"}}}");
    let mut s = Json::from_str("t");
    s.set("k", Json::Null);
    assert_eq!(jvalue::to_text(&s), "{\"k\":null}");
}

#[test]
fn hrefs_of_a_moved_page() {
    let fm = Page::new("http://127.0.0.1/a/x.html", None);
    let dest = Page::new("http://127.0.0.1/b/d/x.html", None);
    assert_eq!(page_utility::page_move2_href_convert(&fm, "y.html", &dest), Ok("y.html".to_string()));
    assert_eq!(page_utility::page_move2_href_convert(&fm, "../c/z.html", &dest), Ok("../../c/z.html".to_string()));
    let content = "<a href=\"../c/z.html\">z</a> <a HREF = 'y.html'>y</a>";
    assert_eq!(
        page_utility::page_move2_subsection_content_href_convert(&fm, content, &dest),
        Ok("<a href=\"../../c/z.html\">z</a> <a HREF = 'y.html'>y</a>".to_string())
    );
    assert_eq!(
        page_utility::page_move2_href_convert(&fm, "https://example.com/x.html", &dest),
        Ok("https://example.com/x.html".to_string())
    );
    assert_eq!(
        page_utility::page_move2_subsection_content_href_convert(&fm, "<a href=\"#top\">t</a>", &dest),
        Ok("<a href=\"#top\">t</a>".to_string())
    );
}

#[test]
fn a_page_is_moved() {
    let mut data = pju::page_json_blank();
    data.set3("data", "page", "title", Json::from_str("X"));
    let mut fm = Page::new("http://127.0.0.1/a/x.html", None);
    fm.page_json_replace(data).unwrap();
    let mut dest = Page::new("http://127.0.0.1/b/x.html", None);
    let done = page_utility::page_move2(None, &mut dest, &mut fm).unwrap();
    assert_eq!(done.dest_backup, "pages/b/x.html.1");
    assert_eq!(done.fm_backup, Ok("pages/a/x.html.1".to_string()));
    assert!(done.children.is_empty());
    let navi = dest.page_json.as_ref().unwrap().value().get2("data", "navi").unwrap();
    assert_eq!(jvalue::to_text(navi), "[[\"X\",\"\"]]");
    let mut nodata = Page::from("http://127.0.0.1/n.html", None);
    assert_eq!(page_utility::page_move2(None, &mut dest, &mut nodata).err(), Some("page_move2 page_json is none".to_string()));
}

#[test]
fn a_page_is_moved_the_first_way() {
    let mut data = pju::page_json_blank();
    data.set3("data", "page", "title", Json::from_str("X"));
    let mut fm = Page::new("http://127.0.0.1/a/x.html", None);
    fm.page_json_replace(data).unwrap();
    let mut dest = Page::new("http://127.0.0.1/b/x.html", None);
    assert_eq!(page_utility::page_move(&mut fm, &mut dest, None), Ok("pages/b/x.html.1".to_string()));
    let navi = dest.page_json.as_ref().unwrap().value().get2("data", "navi").unwrap();
    assert_eq!(jvalue::to_text(navi), "[[\"X\",\"\"]]");
    let mut parent = Page::new("http://127.0.0.1/top.html", None);
    let mut nodata = Page::from("http://127.0.0.1/n.html", None);
    assert_eq!(nodata.page_move(&mut dest, &parent), Err("fm_page.page_json not found".to_string()));
    let mut dest2 = Page::from("http://127.0.0.1/m.html", None);
    assert_eq!(fm.page_move(&mut dest2, &parent), Err("dest_page.page_json not found".to_string()));
    parent.page_json_update_save().unwrap();
}

#[test]
fn old_page_index_and_subsections_are_read() {
    let html = "<html><body>\
        <ul class=\"listItemBase\"><li><a href=\"#s1\">One</a></li></ul>\
        <div class=\"subsection\" id=\"s1\"><div class=\"subsectionTitle\">Title One</div>\
        <div class=\"subsectionContent\"><div class=\"textContent\">hello</div></div></div>\
        <div class=\"subsection\" id=\"s2\"><div class=\"subsectionTitle\">Two</div>\
        <div class=\"subsectionContent\"><div class=\"htmlContent\"><b>bold</b></div></div></div>\
        </body></html>";
    let d = PageDom::new(html);
    let j = dom_to_json::dom_to_json(&d.dom);
    let id1 = dju::ss_json_href(&j, "#s1").unwrap();
    let s1 = j.get4("data", "subsection", "data", &id1).unwrap();
    assert_eq!(s1.get("title").unwrap().as_str(), Some("One"));
    let c1 = s1.get("content").unwrap().at(0).unwrap();
    assert_eq!(c1.get("type").unwrap().as_str(), Some("text"));
    let id2 = dju::ss_json_href(&j, "#s2").unwrap();
    let s2 = j.get4("data", "subsection", "data", &id2).unwrap();
    assert_eq!(s2.get("title").unwrap().as_str(), Some("Two"));
    let c2 = s2.get("content").unwrap().at(0).unwrap();
    assert_eq!(c2.get("type").unwrap().as_str(), Some("html"));
    assert_eq!(c2.get("value").unwrap().as_str(), Some("<b>bold</b>"));
    assert_ne!(id1, id2);
}

#[test]
fn nested_index_items_all_sit_under_the_top_subsection() {
    let d = PageDom::new(
        "<html><body><ul class=\"listItemBase\"><li><a href=\"#a\">A</a>\
         <ul class=\"listItemBase\"><li><a href=\"#b\">B</a></li></ul></li></ul></body></html>",
    );
    let j = dom_to_json::dom_to_json(&d.dom);
    let a = j.get4("data", "subsection", "data", "1").unwrap();
    let b = j.get4("data", "subsection", "data", "2").unwrap();
    assert_eq!(text_of(a.get("href").unwrap()), "#a");
    assert_eq!(text_of(b.get("href").unwrap()), "#b");
    assert_eq!(a.get("parent").unwrap().as_u32(), Some(0));
    assert_eq!(b.get("parent").unwrap().as_u32(), Some(0));
    let top = j.get4("data", "subsection", "data", "0").unwrap();
    assert_eq!(top.get("child").unwrap().len(), 2);
    assert_eq!(text_of(top.get("child").unwrap()), "[1,2]");
    assert_eq!(j.get3("data", "subsection", "data").unwrap().len(), 3);
    assert_eq!(j.get4("data", "subsection", "id", "id_next").unwrap().as_u32(), Some(3));
}

#[test]
fn every_href_of_a_moved_content_is_rebased() {
    let fm = Page::new("http://h/a/p.html", None);
    let dest = Page::new("http://h/b/q.html", None);
    assert_eq!(
        page_utility::page_move_subsection_content_href_convert(&fm, "<a href=\"x.html\">X</a><a href=\"y.html\">Y</a>", &dest),
        "<a href=\"../a/x.html\">X</a><a href=\"../a/y.html\">Y</a>"
    );
    let fm2 = Page::new("http://h/a/b/p.html", None);
    let dest2 = Page::new("http://h/q.html", None);
    assert_eq!(
        page_utility::page_move2_subsection_content_href_convert(&fm2, "<a href=\"../c.html\">C</a> <a href=\"#t\">T</a>", &dest2),
        Ok("<a href=\"a/c.html\">C</a> <a href=\"#t\">T</a>".to_string())
    );
}

#[test]
fn inherited_navigation_is_seen_from_the_destination() {
    let mut pdata = pju::page_json_blank();
    let mut pnavi = Json::new_array();
    let _ = pnavi.push(Json::pair("Top", "top.html"));
    pdata.set2("data", "navi", pnavi);
    let mut parent = Page::new("http://127.0.0.1/top.html", None);
    parent.page_json_replace(pdata).unwrap();
    let mut data = pju::page_json_blank();
    data.set3("data", "page", "title", Json::from_str("X"));
    let mut navi = Json::new_array();
    let _ = navi.push(Json::pair("Top", "../top.html"));
    let _ = navi.push(Json::pair("X", ""));
    data.set2("data", "navi", navi);
    let mut fm = Page::new("http://127.0.0.1/a/x.html", None);
    fm.page_json_replace(data).unwrap();
    let mut dest = Page::new("http://127.0.0.1/b/c/x.html", None);
    page_utility::page_move2(Some(&parent), &mut dest, &mut fm).unwrap();
    let dnavi = dest.page_json.as_ref().unwrap().value().get2("data", "navi").unwrap();
    assert_eq!(jvalue::to_text(dnavi), "[[\"Top\",\"../../top.html\"],[\"X\",\"\"]]");
}

#[test]
fn ids_are_read_from_numbers_and_texts() {
    let mut n = Json::from_u32(7);
    assert_eq!(dju::json_value_to_u32(&mut n), 7);
    let mut t = Json::from_str("12");
    assert_eq!(dju::json_value_to_u32(&mut t), 12);
    let mut x = Json::from_str("x");
    assert_eq!(dju::json_value_to_u32(&mut x), 0);
}
