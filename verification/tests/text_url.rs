use wc::text;
use wc::url_util;
use wc::pattern;

#[test]
fn trim_drops_outer_white_space() {
    assert_eq!(text::trim("  ab c \n"), "ab c");
    assert_eq!(text::trim("\t\u{3000}x\u{a0}"), "x");
    assert_eq!(text::trim("   "), "");
}

#[test]
fn replace_every_occurrence() {
    assert_eq!(text::replace("a\"b\"", "\"", "\\\""), "a\\\"b\\\"");
    assert_eq!(text::replace("aaa", "aa", "b"), "ba");
    assert_eq!(text::replace("xyz", "q", "b"), "xyz");
}

#[test]
fn contains_and_starts_with() {
    assert!(text::contains("hello", "ll"));
    assert!(!text::contains("hello", "lo!"));
    assert!(text::contains("hello", ""));
    assert!(text::starts_with("#abc", "#"));
    assert!(!text::starts_with("abc", "#"));
}

#[test]
fn decimal_texts() {
    assert_eq!(text::usize_to_string(0), "0");
    assert_eq!(text::usize_to_string(1234), "1234");
    assert_eq!(text::u32_to_string(4294967295), "4294967295");
    assert_eq!(text::parse_u32("42"), Some(42));
    assert_eq!(text::parse_u32("x1"), None);
}

#[test]
fn lines_and_join() {
    let parts = text::split_lines("a\nb\r\nc");
    assert_eq!(parts, vec!["a".to_string(), "b\r".to_string(), "c".to_string()]);
    assert_eq!(text::join(&parts, "-"), "a-b\r-c");
    assert_eq!(text::split_lines(""), vec!["".to_string()]);
    let kept = text::keep_nonempty(&vec!["".to_string(), "x".to_string(), "".to_string()]);
    assert_eq!(kept, vec!["x".to_string()]);
}

#[test]
fn words() {
    assert!(text::has_word("ss_content  ss_x", "ss_x"));
    assert!(!text::has_word("ss_content", "ss"));
}

#[test]
fn utf8_texts() {
    assert_eq!(text::from_utf8(&[0x61, 0x62]), Some("ab".to_string()));
    assert_eq!(text::from_utf8(&[0xff]), None);
    assert_eq!(text::from_utf8_lossy(&[0x61, 0xff]), "a\u{fffd}");
    assert_eq!(text::to_bytes("é"), vec![0xc3, 0xa9]);
}

#[test]
fn url_join_scenarios() {
    let base = "http://127.0.0.1/base/abc.html";
    let u2 = url_util::join(base, "#logal_ref").unwrap();
    assert_eq!(u2, "http://127.0.0.1/base/abc.html#logal_ref");
    assert_eq!(url_util::make_relative(base, &u2), Some("#logal_ref".to_string()));
    let u3 = url_util::join(base, "def.html").unwrap();
    assert_eq!(u3, "http://127.0.0.1/base/def.html");
    assert_eq!(url_util::make_relative(base, &u3), Some("def.html".to_string()));
    let u4 = url_util::join(base, "http://127.0.0.1/base/def.html").unwrap();
    assert_eq!(url_util::make_relative(base, &u4), Some("def.html".to_string()));
    let u5 = url_util::join(base, "").unwrap();
    assert_eq!(u5, base);
    assert_eq!(url_util::make_relative(base, &u5), Some("".to_string()));
    let u6 = url_util::join(base, "http://127.0.0.1/other/def.html").unwrap();
    assert_eq!(url_util::make_relative(base, &u6), Some("../other/def.html".to_string()));
}

#[test]
fn url_parts() {
    let u = "https://127.0.0.1:8080/a/b.html?q=1#x";
    assert_eq!(url_util::path(u), "/a/b.html");
    assert_eq!(url_util::after_path(u), "?q=1#x");
    assert_eq!(url_util::after_host(u), ":8080/a/b.html?q=1#x");
    assert_eq!(url_util::after_host("http://h/p#f"), "/p#f");
    assert_eq!(url_util::parse("https://127.0.0.1:8080/a.html"), Some("https://127.0.0.1:8080/a.html".to_string()));
    assert_eq!(url_util::parse("no url"), None);
    assert_eq!(url_util::join("no url", "a.html"), None);
}

#[test]
fn regex_search() {
    assert!(pattern::is_match(r"\d+$", "pages/a.html.01"));
    assert!(!pattern::is_match(r"\d+$", "pages/a.html"));
    assert_eq!(pattern::find_at("b+", "abba b", 0), Some((1, 3)));
    assert_eq!(pattern::find_at("b+", "abba b", 3), Some((5, 6)));
    assert_eq!(pattern::find_at("(", "abc", 0), None);
}

#[test]
fn entity_references_replaced() {
    let s = wc::page::page_dom_utility::entity_reference_unset("a &lt;b&gt; &amp; &lt;&gt;é&gt;");
    assert_eq!(s, "a <b> &amp; <>é>");
}

#[test]
fn json_numbers_written_as_read() {
    for t in ["{\"a\":1.50,\"b\":-0.25,\"c\":12e3,\"d\":0,\"e\":[100,2.000,-7]}", "1.50", "0.0", "-3", "18446744073709551615"] {
        let mine = wc::jvalue::to_text(&wc::jvalue::parse(t).unwrap());
        assert_eq!(mine, json::parse(t).unwrap().dump());
    }
    assert_eq!(wc::jvalue::to_text(&wc::jvalue::parse("1.50").unwrap()), "1.50");
}
