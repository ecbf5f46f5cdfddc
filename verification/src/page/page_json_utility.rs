//! Building, decoding and finding the page data (`page_json`).
use vstd::prelude::*;
use vstd::string::*;
use crate::jvalue::{self, Json, JVal};
use crate::text;
use crate::pattern;

verus! {

/// An object with the given entries.
pub fn obj_of(es: Vec<(String, Json)>) -> (r: Json)
    ensures
        r@ == JVal::Obj(jvalue::entries_view(es@)),
{
    let r = Json::Object(es);
    assert(r@->Obj_0 =~= jvalue::entries_view(es@));
    r
}

/// One object entry.
pub fn entry(k: &str, v: Json) -> (r: (String, Json))
    ensures
        r.0@ == k@,
        r.1@ == v@,
{
    (String::from_str(k), v)
}

/// The page data of a new, empty page.
pub open spec fn page_json_blank_spec() -> JVal {
    JVal::Obj(
        seq![
            ("system"@, JVal::Obj(seq![("version"@, jvalue::str_val("0.0.3"@))])),
            (
                "data"@,
                JVal::Obj(
                    seq![
                        (
                            "page"@,
                            JVal::Obj(
                                seq![
                                    ("title"@, jvalue::str_val(""@)),
                                    ("rev"@, jvalue::u32_val(0)),
                                    ("rev_speculation"@, jvalue::u32_val(0)),
                                    ("group_top"@, JVal::Bool(false)),
                                ],
                            ),
                        ),
                        ("navi"@, jvalue::empty_arr()),
                        (
                            "subsection"@,
                            JVal::Obj(
                                seq![
                                    (
                                        "id"@,
                                        JVal::Obj(
                                            seq![
                                                ("id_next"@, jvalue::u32_val(1)),
                                                ("id_notinuse"@, jvalue::empty_arr()),
                                            ],
                                        ),
                                    ),
                                    (
                                        "data"@,
                                        JVal::Obj(
                                            seq![
                                                (
                                                    "0"@,
                                                    JVal::Obj(
                                                        seq![
                                                            ("parent"@, jvalue::str_val(""@)),
                                                            ("id"@, jvalue::str_val("0"@)),
                                                            ("title"@, jvalue::str_val(""@)),
                                                            ("href"@, jvalue::str_val(""@)),
                                                            ("content"@, jvalue::empty_arr()),
                                                            ("child"@, jvalue::empty_arr()),
                                                        ],
                                                    ),
                                                ),
                                            ],
                                        ),
                                    ),
                                ],
                            ),
                        ),
                        (
                            "href"@,
                            JVal::Obj(
                                seq![
                                    ("relation"@, jvalue::empty_obj()),
                                    ("last"@, jvalue::empty_obj()),
                                    ("history"@, jvalue::empty_obj()),
                                ],
                            ),
                        ),
                    ],
                ),
            ),
        ],
    )
}

/// The page data of a new, empty page.
pub fn page_json_blank() -> (r: Json)
    ensures
        r@ == page_json_blank_spec(),
{
    let mut system = Vec::new();
    system.push(entry("version", Json::from_str("0.0.3")));
    let system = obj_of(system);
    assert(system@->Obj_0 =~= seq![("version"@, jvalue::str_val("0.0.3"@))]);

    let mut page = Vec::new();
    page.push(entry("title", Json::from_str("")));
    page.push(entry("rev", Json::from_u32(0)));
    page.push(entry("rev_speculation", Json::from_u32(0)));
    page.push(entry("group_top", Json::Bool(false)));
    let page = obj_of(page);
    assert(page@->Obj_0 =~= seq![
        ("title"@, jvalue::str_val(""@)),
        ("rev"@, jvalue::u32_val(0)),
        ("rev_speculation"@, jvalue::u32_val(0)),
        ("group_top"@, JVal::Bool(false)),
    ]);

    let mut id = Vec::new();
    id.push(entry("id_next", Json::from_u32(1)));
    id.push(entry("id_notinuse", Json::new_array()));
    let id = obj_of(id);
    assert(id@->Obj_0 =~= seq![("id_next"@, jvalue::u32_val(1)), ("id_notinuse"@, jvalue::empty_arr())]);

    let mut top = Vec::new();
    top.push(entry("parent", Json::from_str("")));
    top.push(entry("id", Json::from_str("0")));
    top.push(entry("title", Json::from_str("")));
    top.push(entry("href", Json::from_str("")));
    top.push(entry("content", Json::new_array()));
    top.push(entry("child", Json::new_array()));
    let top = obj_of(top);
    assert(top@->Obj_0 =~= seq![
        ("parent"@, jvalue::str_val(""@)),
        ("id"@, jvalue::str_val("0"@)),
        ("title"@, jvalue::str_val(""@)),
        ("href"@, jvalue::str_val(""@)),
        ("content"@, jvalue::empty_arr()),
        ("child"@, jvalue::empty_arr()),
    ]);
    let ghost top_v = top@;

    let mut ss_data = Vec::new();
    ss_data.push(entry("0", top));
    let ss_data = obj_of(ss_data);
    assert(ss_data@->Obj_0 =~= seq![("0"@, top_v)]);
    let ghost id_v = id@;
    let ghost ss_data_v = ss_data@;

    let mut subsection = Vec::new();
    subsection.push(entry("id", id));
    subsection.push(entry("data", ss_data));
    let subsection = obj_of(subsection);
    assert(subsection@->Obj_0 =~= seq![("id"@, id_v), ("data"@, ss_data_v)]);

    let mut href = Vec::new();
    href.push(entry("relation", Json::new_object()));
    href.push(entry("last", Json::new_object()));
    href.push(entry("history", Json::new_object()));
    let href = obj_of(href);
    assert(href@->Obj_0 =~= seq![
        ("relation"@, jvalue::empty_obj()),
        ("last"@, jvalue::empty_obj()),
        ("history"@, jvalue::empty_obj()),
    ]);
    let ghost page_v = page@;
    let ghost subsection_v = subsection@;
    let ghost href_v = href@;

    let mut data = Vec::new();
    data.push(entry("page", page));
    data.push(entry("navi", Json::new_array()));
    data.push(entry("subsection", subsection));
    data.push(entry("href", href));
    let data = obj_of(data);
    assert(data@->Obj_0 =~= seq![
        ("page"@, page_v),
        ("navi"@, jvalue::empty_arr()),
        ("subsection"@, subsection_v),
        ("href"@, href_v),
    ]);
    let ghost system_v = system@;
    let ghost data_v = data@;

    let mut all = Vec::new();
    all.push(entry("system", system));
    all.push(entry("data", data));
    let all = obj_of(all);
    assert(all@->Obj_0 =~= seq![("system"@, system_v), ("data"@, data_v)]);
    all
}

/// The text with the entity references `&lt;`, `&gt;` and `&amp;` turned
/// back into `<`, `>` and `&`, in that order.
pub open spec fn page_json_str_decode_spec(s: Seq<char>) -> Seq<char> {
    text::replace_spec(
        text::replace_spec(text::replace_spec(s, "&lt;"@, "<"@), "&gt;"@, ">"@),
        "&amp;"@,
        "&"@,
    )
}

/// Turns the entity references that html pages hold back into characters.
pub fn page_json_str_decode(json_str: &str) -> (r: String)
    ensures
        r@ == page_json_str_decode_spec(json_str@),
{
    proof {
        reveal_strlit("&lt;");
        reveal_strlit("&gt;");
        reveal_strlit("&amp;");
    }
    let s = text::replace(json_str, "&lt;", "<");
    let s = text::replace(s.as_str(), "&gt;", ">");
    text::replace(s.as_str(), "&amp;", "&")
}

/// The view of an optional document.
pub open spec fn opt_view(o: Option<Json>) -> Option<JVal> {
    match o {
        Some(j) => Some(j@),
        None => None,
    }
}

/// The page data that a text holds: none for an empty text, otherwise what
/// the JSON parser makes of it.
pub open spec fn value_from_str_spec(s: Seq<char>) -> Option<JVal> {
    if s.len() == 0 {
        None
    } else {
        jvalue::json_parse_spec(s)
    }
}

/// Parses page data from a text.
pub fn page_json_value_from_str(json_str: &str) -> (r: Option<Json>)
    ensures
        opt_view(r) == value_from_str_spec(json_str@),
{
    if json_str.is_empty() {
        return None;
    }
    jvalue::parse(json_str)
}

/// The value as a `u32`, when it is a non-negative integer that fits.
pub fn v_to_u32(jv: &Json) -> (r: Option<u32>)
    ensures
        r == jvalue::as_u32(jv@),
{
    jv.as_u32()
}

/// What `u32::from_str_radix` makes of the value's text.
pub open spec fn n_to_int_spec(j: JVal) -> Result<u32, ()> {
    match text::parse_u32_spec(jvalue::json_text(j)) {
        Some(n) => Ok(n),
        None => Err(()),
    }
}

/// The value's text (as its `to_string` gives) read as a decimal `u32`.
pub fn n_to_int(jv_n: &Json) -> (r: Result<u32, ()>)
    ensures
        r == n_to_int_spec(jv_n@),
{
    let s = jvalue::to_text(jv_n);
    match text::parse_u32(s.as_str()) {
        Some(i) => Ok(i),
        None => Err(()),
    }
}

/// Adds `num_arg` to the number that the value's text reads as, stores the
/// sum in the value and returns it; when the text is no number, returns
/// `num_arg` and leaves the value as it is.  The sum must fit in a `u32`.
pub fn num_plus(jv_n: &mut Json, num_arg: u32) -> (r: u32)
    requires
        n_to_int_spec(old(jv_n)@) matches Ok(n) ==> n + num_arg <= u32::MAX,
    ensures
        n_to_int_spec(old(jv_n)@) matches Ok(n) ==> r == n + num_arg && final(jv_n)@ == jvalue::u32_val(r),
        n_to_int_spec(old(jv_n)@) is Err ==> r == num_arg && final(jv_n)@ == old(jv_n)@,
{
    let num_org = match n_to_int(jv_n) {
        Ok(i) => i,
        Err(_) => return num_arg,
    };
    let num_new = num_org + num_arg;
    *jv_n = Json::from_u32(num_new);
    num_new
}

/// `num_plus` where the sum fits in a `u32`; `None`, with the value left as
/// it is, where it would not.
pub fn num_plus_checked(jv_n: &mut Json, num_arg: u32) -> (r: Option<u32>)
    ensures
        n_to_int_spec(old(jv_n)@) is Ok && n_to_int_spec(old(jv_n)@)->Ok_0 + num_arg <= u32::MAX
            ==> r == Some((n_to_int_spec(old(jv_n)@)->Ok_0 + num_arg) as u32) && final(jv_n)@
            == jvalue::u32_val((n_to_int_spec(old(jv_n)@)->Ok_0 + num_arg) as u32),
        n_to_int_spec(old(jv_n)@) is Ok && n_to_int_spec(old(jv_n)@)->Ok_0 + num_arg > u32::MAX
            ==> r is None && final(jv_n)@ == old(jv_n)@,
        n_to_int_spec(old(jv_n)@) is Err ==> r == Some(num_arg) && final(jv_n)@ == old(jv_n)@,
{
    match n_to_int(jv_n) {
        Ok(i) => {
            if i > 0xffff_ffffu32 - num_arg {
                return None;
            }
        },
        Err(_) => {},
    }
    Some(num_plus(jv_n, num_arg))
}

/// The opening of the `<span>` that holds page data, up to the data.
pub const SPAN_OPEN: &'static str = r#"<(?i)span[^>]*id\s*=\s*"page_json_str"[^>]*>+\s*[^{]*"#;

/// The closing of that `<span>`.
pub const SPAN_CLOSE: &'static str = r#"</(?i)span\s*"#;

/// The opening of the `<script>` that held page data in early pages.
pub const SCRIPT_OPEN: &'static str = r#"<(?i)script[^>]*class\s*=\s*"page_json"[^>]*>+\s*let\s+page_json\s*=[^{]*"#;

/// The closing of that `<script>`.
pub const SCRIPT_CLOSE: &'static str = r#"\s*</(?i)script\s*"#;

/// The byte range of the text between the end of a match of `open` and the
/// start of the next match of `close` after it.
pub open spec fn enclosed_range(open: Seq<char>, close: Seq<char>, s: Seq<char>) -> Option<(int, int)> {
    match pattern::regex_find_spec(open, s, 0) {
        Some(m1) => match pattern::regex_find_spec(close, s, m1.1) {
            Some(m2) => Some((m1.1, m2.0)),
            None => None,
        },
        None => None,
    }
}

/// The bytes of `s` in a range.
pub open spec fn bytes_in(s: &str, r: (int, int)) -> Seq<u8> {
    s.spec_bytes().subrange(r.0, r.1)
}

fn enclosed<'a>(open: &str, close: &str, s: &'a str) -> (r: Option<&'a str>)
    ensures
        r matches Some(t) ==> enclosed_range(open@, close@, s@) matches Some(g) && t.spec_bytes()
            == bytes_in(s, g),
        r is None ==> enclosed_range(open@, close@, s@) is None,
{
    let start = match pattern::find_at(open, s, 0) {
        Some(m) => m.1,
        None => return None,
    };
    let end = match pattern::find_at(close, s, start) {
        Some(m) => m.0,
        None => return None,
    };
    Some(text::substr(s, start, end))
}

/// Finds the page data held as text in `<span id="page_json_str" ...>{...}</span>`
/// (pages of system 0.0.2 and later).
pub fn find_page_json_str_in_span(s: &str) -> (r: Option<&str>)
    ensures
        r matches Some(t) ==> enclosed_range(SPAN_OPEN@, SPAN_CLOSE@, s@) matches Some(g)
            && t.spec_bytes() == bytes_in(s, g),
        r is None ==> enclosed_range(SPAN_OPEN@, SPAN_CLOSE@, s@) is None,
{
    enclosed(SPAN_OPEN, SPAN_CLOSE, s)
}

/// Finds the page data held in
/// `<script type="text/javascript" class="page_json">let page_json = {...}</script>`
/// (pages of system 0.0.1).
pub fn find_page_json_str_in_script(s: &str) -> (r: Option<&str>)
    ensures
        r matches Some(t) ==> enclosed_range(SCRIPT_OPEN@, SCRIPT_CLOSE@, s@) matches Some(g)
            && t.spec_bytes() == bytes_in(s, g),
        r is None ==> enclosed_range(SCRIPT_OPEN@, SCRIPT_CLOSE@, s@) is None,
{
    enclosed(SCRIPT_OPEN, SCRIPT_CLOSE, s)
}

/// Where the page data text of a page lies: in the `<span>` if there is one,
/// otherwise in the `<script>`.
pub open spec fn page_json_range(s: Seq<char>) -> Option<(int, int)> {
    match enclosed_range(SPAN_OPEN@, SPAN_CLOSE@, s) {
        Some(g) => Some(g),
        None => enclosed_range(SCRIPT_OPEN@, SCRIPT_CLOSE@, s),
    }
}

/// Finds the page data text in a page.
pub fn fined_page_json_str(s: &str) -> (r: Option<&str>)
    ensures
        r matches Some(t) ==> page_json_range(s@) matches Some(g) && t.spec_bytes() == bytes_in(
            s,
            g,
        ),
        r is None ==> page_json_range(s@) is None,
{
    if let Some(t) = find_page_json_str_in_span(s) {
        return Some(t);
    }
    if let Some(t) = find_page_json_str_in_script(s) {
        return Some(t);
    }
    None
}

/// The page data of a page's content: the data text found in it, with
/// entity references decoded, parsed.
pub open spec fn page_json_from_content_spec(content: &str) -> Option<JVal> {
    match page_json_range(content@) {
        Some(g) => value_from_str_spec(
            page_json_str_decode_spec(vstd::utf8::decode_utf8(bytes_in(content, g))),
        ),
        None => None,
    }
}

/// Finds the page data in a page's content and parses it.
pub fn page_json_value_from_content(content: &str) -> (r: Option<Json>)
    ensures
        opt_view(r) == page_json_from_content_spec(content),
{
    let page_json_str = match fined_page_json_str(content) {
        Some(t) => t,
        None => return None,
    };
    proof {
        text::lemma_bytes_valid(page_json_str@);
    }
    let decoded = page_json_str_decode(page_json_str);
    page_json_value_from_str(decoded.as_str())
}

} // verus!
