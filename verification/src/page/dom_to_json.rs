//! Reading page data out of a page written in HTML: its revision, its
//! navigation path, its index list and its subsections.
use vstd::prelude::*;
use crate::jvalue::{self, Json, JVal};
use crate::text;
use super::dom::{self, AttrV, DataV, DomNode, NodeKind, NodeV};
use super::page_dom_utility::{
    self as pdu, attr_spec, child_match_list, matches_in, node_element, node_element_spec,
    node_text, node_text_spec,
};
use super::dom_to_json_utility::{self as dju, ss_id_href_spec, ss_json_new_spec};
use super::page_json_utility as pju;

verus! {

// ---------------------------------------------------------------------------
// Subsection records
// ---------------------------------------------------------------------------

/// The subsection record with id key `key`.
pub open spec fn ss_rec(j: JVal, key: Seq<char>) -> JVal {
    jvalue::get4(j, "data"@, "subsection"@, "data"@, key)
}

/// `j.data.subsection.data[key][f] = v`.
pub open spec fn ss_rec_set(j: JVal, key: Seq<char>, f: Seq<char>, v: JVal) -> JVal {
    jvalue::set4(j, "data"@, "subsection"@, "data"@, key, jvalue::set(ss_rec(j, key), f, v))
}

/// An array with `v` appended; any other value unchanged (as a failed
/// `push` leaves it).
pub open spec fn push_or_keep(a: JVal, v: JVal) -> JVal {
    match jvalue::push(a, v) {
        Some(x) => x,
        None => a,
    }
}

/// `j.data.subsection.data[key].content.push(v)`.
pub open spec fn ss_content_push(j: JVal, key: Seq<char>, v: JVal) -> JVal {
    ss_rec_set(j, key, "content"@, push_or_keep(jvalue::get(ss_rec(j, key), "content"@), v))
}

/// A content item `{"type": t, "value": v}`.
pub open spec fn content_obj(t: Seq<char>, v: Seq<char>) -> JVal {
    JVal::Obj(seq![("type"@, jvalue::str_val(t)), ("value"@, jvalue::str_val(v))])
}

/// Whether flat subsection records (see `parents_zero`) stay flat from `a`
/// to `b`.
pub open spec fn pz_kept(a: JVal, b: JVal) -> bool {
    dju::parents_zero(a) ==> dju::parents_zero(b)
}

/// Whether the subsection tree as the top record lists it (see `tree_ok`)
/// stays so from `a` to `b`.
pub open spec fn tree_kept(a: JVal, b: JVal) -> bool {
    dju::tree_ok(a) ==> dju::tree_ok(b)
}

fn ss_set_field(pj: &mut Json, key: &str, f: &str, v: Json)
    ensures
        final(pj)@ == ss_rec_set(old(pj)@, key@, f@, v@),
        dju::ss_top(old(pj)@) is Obj ==> dju::ss_top(final(pj)@) is Obj,
        f@ != "parent"@ ==> pz_kept(old(pj)@, final(pj)@),
        f@ != "child"@ && dju::key_in(old(pj)@, key@) ==> tree_kept(old(pj)@, final(pj)@),
        dju::key_in(final(pj)@, key@),
{
    proof {
        if f@ != "parent"@ && dju::parents_zero(pj@) {
            dju::lemma_pz_rec_field(pj@, key@, f@, v@);
        }
        if f@ != "child"@ {
            dju::lemma_tree_rec_field(pj@, key@, f@, v@, key@);
        }
        dju::lemma_put_rec(pj@, key@, jvalue::set(ss_rec(pj@, key@), f@, v@), key@);
    }
    let mut rec = match pj.get4("data", "subsection", "data", key) {
        Some(r) => r.deep_clone(),
        None => Json::Null,
    };
    rec.set(f, v);
    proof {
        lemma_top_after_rec_set(pj@, key@, rec@);
    }
    pj.set4("data", "subsection", "data", key, rec);
}

fn ss_push_content(pj: &mut Json, key: &str, v: Json)
    ensures
        final(pj)@ == ss_content_push(old(pj)@, key@, v@),
        dju::ss_top(old(pj)@) is Obj ==> dju::ss_top(final(pj)@) is Obj,
        pz_kept(old(pj)@, final(pj)@),
        dju::key_in(old(pj)@, key@) ==> tree_kept(old(pj)@, final(pj)@),
        dju::key_in(final(pj)@, key@),
{
    proof {
        lemma_literals();
    }
    let mut content = match pj.get4("data", "subsection", "data", key) {
        Some(r) => match r.get("content") {
            Some(c) => c.deep_clone(),
            None => Json::Null,
        },
        None => Json::Null,
    };
    let _r = content.push(v);
    ss_set_field(pj, key, "content", content);
}

fn content_json(t: &str, v: &str) -> (r: Json)
    ensures
        r@ == content_obj(t@, v@),
{
    let mut es = Vec::new();
    es.push(pju::entry("type", Json::from_str(t)));
    es.push(pju::entry("value", Json::from_str(v)));
    let r = pju::obj_of(es);
    assert(r@->Obj_0 =~= content_obj(t@, v@)->Obj_0);
    r
}

proof fn lemma_literals()
    ensures
        "page"@ != "subsection"@,
        "navi"@ != "subsection"@,
        "title"@ != "href"@,
        "content"@ != "href"@,
        "child"@ != "href"@,
        "title"@ != "parent"@,
        "href"@ != "parent"@,
        "content"@ != "parent"@,
        "content"@ != "child"@,
        "title"@ != "child"@,
        "href"@ != "child"@,
        "page"@ != "navi"@,
{
    reveal_strlit("parent");
    reveal_strlit("page");
    reveal_strlit("subsection");
    reveal_strlit("navi");
    reveal_strlit("title");
    reveal_strlit("href");
    reveal_strlit("content");
    reveal_strlit("child");
    assert("page"@.len() != "subsection"@.len());
    assert("navi"@.len() != "subsection"@.len());
    assert("title"@.len() != "href"@.len());
    assert("content"@.len() != "href"@.len());
    assert("child"@.len() != "href"@.len());
    assert("title"@.len() != "parent"@.len());
    assert("href"@.len() != "parent"@.len());
    assert("content"@.len() != "parent"@.len());
    assert("content"@.len() != "child"@.len());
    assert("title"@[0] != "child"@[0]);
    assert("href"@.len() != "child"@.len());
    assert("page"@[0] != "navi"@[0]);
}

/// Setting a field of a subsection record keeps the top record an object.
proof fn lemma_top_after_rec_set(j: JVal, key: Seq<char>, rec: JVal)
    requires
        rec is Obj,
    ensures
        dju::ss_top(j) is Obj ==> dju::ss_top(
            jvalue::set4(j, "data"@, "subsection"@, "data"@, key, rec),
        ) is Obj,
{
    if key == "0"@ {
        jvalue::lemma_get4_set4(j, "data"@, "subsection"@, "data"@, key, rec);
    } else {
        jvalue::lemma_get4_set4_other(j, "data"@, "subsection"@, "data"@, key, "0"@, rec);
    }
}

/// Setting `j.data[b][c]` for another `b` than `subsection` leaves the
/// subsection records as they were.
proof fn lemma_ss_data_set3_other(j: JVal, b: Seq<char>, c: Seq<char>, v: JVal)
    requires
        b != "subsection"@,
    ensures
        dju::ss_data(jvalue::set3(j, "data"@, b, c, v)) == dju::ss_data(j),
        dju::ss_top(jvalue::set3(j, "data"@, b, c, v)) == dju::ss_top(j),
        dju::ss_ids(jvalue::set3(j, "data"@, b, c, v)) == dju::ss_ids(j),
{
    let x1 = jvalue::get(j, "data"@);
    jvalue::lemma_get_set(j, "data"@, jvalue::set2(x1, b, c, v));
    jvalue::lemma_get_set_other(x1, b, "subsection"@, jvalue::set(jvalue::get(x1, b), c, v));
}

/// Setting `j.data[b]` for another `b` than `subsection` leaves the
/// subsection records as they were.
proof fn lemma_ss_data_set2_other(j: JVal, b: Seq<char>, v: JVal)
    requires
        b != "subsection"@,
    ensures
        dju::ss_data(jvalue::set2(j, "data"@, b, v)) == dju::ss_data(j),
        dju::ss_top(jvalue::set2(j, "data"@, b, v)) == dju::ss_top(j),
        dju::ss_ids(jvalue::set2(j, "data"@, b, v)) == dju::ss_ids(j),
{
    let x1 = jvalue::get(j, "data"@);
    jvalue::lemma_get_set(j, "data"@, jvalue::set(x1, b, v));
    jvalue::lemma_get_set_other(x1, b, "subsection"@, v);
}

/// A new subsection record keeps the top record an object.
proof fn lemma_top_after_new(j: JVal, href: Seq<char>, pid: u32)
    ensures
        dju::ss_top(j) is Obj ==> dju::ss_top(ss_json_new_spec(j, href, pid).1) is Obj,
{
    if ss_id_href_spec(j, href) is None && dju::ss_top(j) is Obj {
        reveal_strlit("id");
        reveal_strlit("data");
        assert("id"@ != "data"@) by {
            assert("id"@.len() != "data"@.len());
        }
        let (id, j1) = dju::json_id_next_spec(j);
        let ids = dju::ss_ids(j);
        let notinuse = jvalue::get(ids, "id_notinuse"@);
        let ids1 = if jvalue::len(notinuse) > 0 {
            dju::ids_after_take(ids)
        } else {
            ids
        };
        if jvalue::len(notinuse) > 0 && text::parse_u32_spec(
            jvalue::json_text(jvalue::at(notinuse, 0)),
        ) is Some {
            dju::lemma_get3_set3_other(j, "data"@, "subsection"@, "id"@, "data"@, ids1);
        } else {
            let idv = dju::text_u32(jvalue::get(ids1, "id_next"@));
            dju::lemma_get3_set3_other(
                j,
                "data"@,
                "subsection"@,
                "id"@,
                "data"@,
                jvalue::set(ids1, "id_next"@, jvalue::u32_val(dju::wrap_inc(idv))),
            );
        }
        assert(dju::ss_top(j1) == dju::ss_top(j));
        let pkey = text::dec_spec(pid as nat);
        let parent = jvalue::get4(j1, "data"@, "subsection"@, "data"@, pkey);
        let j2 = if parent is Null {
            j1
        } else {
            jvalue::set4(j1, "data"@, "subsection"@, "data"@, pkey, dju::with_child(parent, id))
        };
        if !(parent is Null) {
            lemma_top_after_rec_set(j1, pkey, dju::with_child(parent, id));
        }
        let key = text::dec_spec(id as nat);
        lemma_top_after_rec_set(j2, key, dju::ss_node(id, pid, href));
    }
}

/// Setting a field other than `href` of the record that an href lookup
/// finds keeps the lookup finding it.
proof fn lemma_href_after_rec_set(j: JVal, key: Seq<char>, f: Seq<char>, v: JVal, href: Seq<char>)
    requires
        f != "href"@,
        ss_id_href_spec(j, href) == Some(key),
    ensures
        ss_id_href_spec(ss_rec_set(j, key, f, v), href) == Some(key),
{
    let e = dju::ss_data(j)->Obj_0;
    dju::lemma_first_ss(e, href);
    let p = dju::first_ss(e, href);
    jvalue::lemma_key_pos_found(e, key);
    let q = jvalue::key_pos(e, key);
    let rec = ss_rec(j, key);
    assert(rec == e[q].1);
    dju::lemma_get3_set4(j, "data"@, "subsection"@, "data"@, key, jvalue::set(rec, f, v));
    let e2 = e.update(q, (key, jvalue::set(rec, f, v)));
    assert(dju::ss_data(ss_rec_set(j, key, f, v)) == JVal::Obj(e2));
    dju::lemma_ss_matches_set(rec, f, v, href);
    assert forall|i: int| 0 <= i < e.len() implies dju::ss_matches(#[trigger] e2[i].1, href)
        == dju::ss_matches(e[i].1, href) by {}
    dju::lemma_first_ss_at(e2, href, p);
}

// ---------------------------------------------------------------------------
// Revision
// ---------------------------------------------------------------------------

/// `<pre id="editModeRevCount">`, where an old page kept its revision.
pub open spec fn rev_ptn() -> NodeV {
    node_element_spec("pre"@, seq![attr_spec("id"@, "editModeRevCount"@)])
}

/// The revision in the children: the last text child that reads as a
/// decimal `u32`, 0 when there is none.
pub open spec fn rev_of_children(cs: Seq<NodeV>) -> u32
    decreases cs.len(),
{
    if cs.len() == 0 {
        0
    } else {
        let r = rev_of_children(cs.drop_last());
        match cs.last().data {
            DataV::Text { contents } => match text::parse_u32_spec(contents) {
                Some(i) => i,
                None => r,
            },
            _ => r,
        }
    }
}

/// The data with `data.page.rev` read from the revision element, when there
/// is one.
pub open spec fn content_rev_spec(n: NodeV, j: JVal) -> JVal {
    let l = matches_in(n.children, rev_ptn(), true);
    if l.len() == 0 {
        j
    } else {
        jvalue::set3(j, "data"@, "page"@, "rev"@, jvalue::u32_val(rev_of_children(l[0].children)))
    }
}

fn content_rev_set(node: &DomNode, page_json: &mut Json)
    ensures
        final(page_json)@ == content_rev_spec(node@, old(page_json)@),
        dju::ss_top(final(page_json)@) == dju::ss_top(old(page_json)@),
        dju::ss_data(final(page_json)@) == dju::ss_data(old(page_json)@),
        dju::ss_ids(final(page_json)@) == dju::ss_ids(old(page_json)@),
{
    let content_rev_ptn = node_element("pre", &vec![("id", "editModeRevCount")]);
    assert(content_rev_ptn@.data->Element_attrs =~= seq![attr_spec("id"@, "editModeRevCount"@)]);
    let pre_list = child_match_list(node, &content_rev_ptn, true);
    if pre_list.len() < 1 {
        return;
    }
    assert(pre_list@[0]@ == dom::views(pre_list@)[0]);
    let pre = &pre_list[0];
    proof {
        dom::lemma_children_view(*pre);
    }
    let ghost cs = pre@.children;
    let mut content_rev: u32 = 0;
    let mut i: usize = 0;
    while i < pre.children.len()
        invariant
            i <= pre.children.len(),
            cs == dom::views(pre.children@),
            content_rev == rev_of_children(cs.subrange(0, i as int)),
        decreases pre.children.len() - i,
    {
        assert(cs.subrange(0, i + 1).drop_last() =~= cs.subrange(0, i as int));
        assert(cs[i as int] == pre.children@[i as int]@);
        match &pre.children[i].data {
            NodeKind::Text { contents } => {
                match text::parse_u32(contents.as_str()) {
                    Some(v) => {
                        content_rev = v;
                    },
                    None => {},
                }
            },
            _ => {},
        }
        i = i + 1;
    }
    assert(cs.subrange(0, i as int) =~= cs);
    proof {
        lemma_literals();
        lemma_ss_data_set3_other(page_json@, "page"@, "rev"@, jvalue::u32_val(content_rev));
    }
    page_json.set3("data", "page", "rev", Json::from_u32(content_rev));
}

// ---------------------------------------------------------------------------
// Navigation
// ---------------------------------------------------------------------------

/// The pattern `<a>`.
pub open spec fn a_ptn() -> NodeV {
    node_element_spec("a"@, Seq::empty())
}

/// `<div class="naviBase">`, where a page keeps its navigation links.
pub open spec fn navi_base_ptn() -> NodeV {
    node_element_spec("div"@, seq![attr_spec("class"@, "naviBase"@)])
}

/// The value of the last `href` attribute, an empty text when there is none.
pub open spec fn last_href(attrs: Seq<AttrV>) -> Seq<char>
    decreases attrs.len(),
{
    if attrs.len() == 0 {
        Seq::empty()
    } else if attrs.last().name.local == "href"@ {
        attrs.last().value
    } else {
        last_href(attrs.drop_last())
    }
}

/// The first child's text without line breaks, when the first child is a
/// text; an empty text otherwise.
pub open spec fn first_child_name(cs: Seq<NodeV>) -> Seq<char> {
    if cs.len() > 0 {
        match cs[0].data {
            DataV::Text { contents } => text::replace_spec(contents, "\n"@, Seq::empty()),
            _ => Seq::empty(),
        }
    } else {
        Seq::empty()
    }
}

/// The navigation item `[name, href]` of a link element.
pub open spec fn navi_item(n: NodeV) -> Option<JVal> {
    match n.data {
        DataV::Element { attrs, .. } => Some(
            JVal::Arr(
                seq![jvalue::str_val(first_child_name(n.children)), jvalue::str_val(last_href(attrs))],
            ),
        ),
        _ => None,
    }
}

/// `j.data.navi.push(v)`.
pub open spec fn navi_push(j: JVal, v: JVal) -> JVal {
    jvalue::set2(j, "data"@, "navi"@, push_or_keep(jvalue::get2(j, "data"@, "navi"@), v))
}

/// The data with the navigation items of the links appended in order.
pub open spec fn navi_push_all(j: JVal, items: Seq<NodeV>) -> JVal
    decreases items.len(),
{
    if items.len() == 0 {
        j
    } else {
        let j1 = navi_push_all(j, items.drop_last());
        match navi_item(items.last()) {
            Some(v) => navi_push(j1, v),
            None => j1,
        }
    }
}

/// A text value, `null` for none.
pub open spec fn opt_str(o: Option<Seq<char>>) -> JVal {
    match o {
        Some(s) => jvalue::str_val(s),
        None => JVal::Null,
    }
}

/// The page title taken from the name of the last navigation item.
pub open spec fn navi_title_set(j: JVal) -> JVal {
    let navi = jvalue::get2(j, "data"@, "navi"@);
    if jvalue::len(navi) > 0 {
        jvalue::set3(
            j,
            "data"@,
            "page"@,
            "title"@,
            opt_str(jvalue::as_str(jvalue::at(jvalue::at(navi, jvalue::len(navi) - 1), 0))),
        )
    } else {
        j
    }
}

/// Reading the navigation names the page after the last navigation item
/// (the page itself, as the path ends there): whenever the navigation read
/// is a non-empty list whose last item starts with a text, that text is the
/// page title, and the navigation itself is left as read.
pub proof fn law_title_is_last_navi_item(n: NodeV, j: JVal, s: Seq<char>)
    ensures
        ({
            let x = navi_push_all(j, navi_a_list_spec(n));
            let r = navi_json_spec(n, j);
            &&& jvalue::get2(r, "data"@, "navi"@) == jvalue::get2(x, "data"@, "navi"@)
            &&& (jvalue::get2(r, "data"@, "navi"@) matches JVal::Arr(items) && items.len() > 0
                && jvalue::as_str(jvalue::at(items.last(), 0)) == Some(s)) ==> jvalue::get3(
                r,
                "data"@,
                "page"@,
                "title"@,
            ) == jvalue::str_val(s)
        }),
{
    let x = navi_push_all(j, navi_a_list_spec(n));
    let navi = jvalue::get2(x, "data"@, "navi"@);
    if jvalue::len(navi) > 0 {
        let v = opt_str(jvalue::as_str(jvalue::at(jvalue::at(navi, jvalue::len(navi) - 1), 0)));
        lemma_literals();
        let x1 = jvalue::get(x, "data"@);
        jvalue::lemma_get_set(x, "data"@, jvalue::set2(x1, "page"@, "title"@, v));
        jvalue::lemma_get_set_other(x1, "page"@, "navi"@, jvalue::set(jvalue::get(x1, "page"@), "title"@, v));
        jvalue::lemma_get3_set3(x, "data"@, "page"@, "title"@, v);
    }
}

/// The links of the navigation block: the `<a>` elements in the first
/// `<div class="naviBase">`.
pub open spec fn navi_base_list(n: NodeV) -> Seq<NodeV> {
    let b = matches_in(n.children, navi_base_ptn(), true);
    if b.len() == 0 {
        Seq::empty()
    } else {
        matches_in(b[0].children, a_ptn(), true)
    }
}

/// Whether some `href` attribute contains `top.html`.
pub open spec fn has_top_href(attrs: Seq<AttrV>) -> bool {
    exists|k: int|
        0 <= k < attrs.len() && (#[trigger] attrs[k]).name.local == "href"@ && text::contains_spec(
            attrs[k].value,
            "top.html"@,
        )
}

/// Whether a node is a link to a top page.
pub open spec fn is_top_a(c: NodeV) -> bool {
    pdu::element_match_spec(c, a_ptn()) && has_top_href(c.data->Element_attrs)
}

/// For each link to a top page below `p`, in document order, its parent.
pub open spec fn top_a_parents(p: NodeV) -> Seq<NodeV>
    decreases p, 1int,
{
    top_a_parents_in(p.children, p)
}

/// For each link to a top page among `cs` (children of `p`) and below
/// them, in document order, its parent.
pub open spec fn top_a_parents_in(cs: Seq<NodeV>, p: NodeV) -> Seq<NodeV>
    decreases cs, 0int,
{
    if cs.len() == 0 {
        Seq::empty()
    } else {
        let c = cs[cs.len() - 1];
        top_a_parents_in(cs.subrange(0, cs.len() - 1), p) + (if is_top_a(c) {
            seq![p]
        } else {
            Seq::empty()
        }) + top_a_parents(c)
    }
}

/// The last element, if any.
pub open spec fn last_opt(s: Seq<NodeV>) -> Option<NodeV> {
    if s.len() > 0 {
        Some(s.last())
    } else {
        None
    }
}

/// The navigation links among the children of the parent of the last top
/// link, with the last text among them after the last link.
pub open spec fn navi_scan(cs: Seq<NodeV>) -> (Seq<NodeV>, Option<Seq<char>>)
    decreases cs.len(),
{
    if cs.len() == 0 {
        (Seq::empty(), None)
    } else {
        let (l, t) = navi_scan(cs.drop_last());
        let c = cs.last();
        match c.data {
            DataV::Element { attrs, .. } => if pdu::attr_pos(attrs, "href"@) >= 0 {
                (l.push(c), None)
            } else {
                (l, t)
            },
            DataV::Text { contents } => (l, Some(contents)),
            _ => (l, t),
        }
    }
}

/// `<a>` holding a text.
pub open spec fn a_with_text(t: Seq<char>) -> NodeV {
    NodeV {
        data: node_element_spec("a"@, Seq::empty()).data,
        children: seq![node_text_spec(t)],
    }
}

/// The navigation links found in the body of an old page: in the parent of
/// the last link to a top page, the elements with an `href`, followed by a
/// link made of the last line of the text after the last of them (the name
/// of the page itself).
pub open spec fn navi_list_from_body_spec(n: NodeV) -> Seq<NodeV> {
    let bl = matches_in(n.children, crate::page::page_dom::body_ptn(), true);
    if bl.len() == 0 {
        Seq::empty()
    } else {
        match last_opt(top_a_parents(bl[0])) {
            None => Seq::empty(),
            Some(parent) => {
                let (l, t) = navi_scan(parent.children);
                match t {
                    Some(text) => {
                        let ls = text::lines_spec(text::trim_spec(text));
                        l.push(a_with_text(ls[ls.len() - 1]))
                    },
                    None => l,
                }
            },
        }
    }
}

/// The navigation links of a page: those of its navigation block, or else
/// those found in its body.
pub open spec fn navi_a_list_spec(n: NodeV) -> Seq<NodeV> {
    if navi_base_list(n).len() > 0 {
        navi_base_list(n)
    } else {
        navi_list_from_body_spec(n)
    }
}

/// The data with the navigation items of the page appended to `data.navi`
/// and the page title taken from the last of them.
pub open spec fn navi_json_spec(n: NodeV, j: JVal) -> JVal {
    navi_title_set(navi_push_all(j, navi_a_list_spec(n)))
}

fn navi_json_set(node: &DomNode, page_json: &mut Json)
    ensures
        final(page_json)@ == navi_json_spec(node@, old(page_json)@),
        dju::ss_top(final(page_json)@) == dju::ss_top(old(page_json)@),
        dju::ss_data(final(page_json)@) == dju::ss_data(old(page_json)@),
        dju::ss_ids(final(page_json)@) == dju::ss_ids(old(page_json)@),
{
    let a_list = navi_a_list(node);
    let ghost items = dom::views(a_list@);
    let ghost j0 = page_json@;
    proof {
        lemma_literals();
    }
    let mut i: usize = 0;
    while i < a_list.len()
        invariant
            i <= a_list.len(),
            items == dom::views(a_list@),
            page_json@ == navi_push_all(j0, items.subrange(0, i as int)),
            dju::ss_top(page_json@) == dju::ss_top(j0),
            dju::ss_data(page_json@) == dju::ss_data(j0),
            dju::ss_ids(page_json@) == dju::ss_ids(j0),
            "navi"@ != "subsection"@,
            "page"@ != "subsection"@,
        decreases a_list.len() - i,
    {
        assert(items.subrange(0, i + 1).drop_last() =~= items.subrange(0, i as int));
        let n = &a_list[i];
        assert(items[i as int] == n@);
        match &n.data {
            NodeKind::Element { attrs, .. } => {
                let href = last_href_exec(attrs);
                let name = first_child_name_exec(n);
                let mut navi = match page_json.get2("data", "navi") {
                    Some(v) => v.deep_clone(),
                    None => Json::Null,
                };
                let _r = navi.push(Json::pair(name.as_str(), href.as_str()));
                proof {
                    lemma_ss_data_set2_other(page_json@, "navi"@, navi@);
                }
                page_json.set2("data", "navi", navi);
            },
            _ => {},
        }
        i = i + 1;
    }
    assert(items.subrange(0, i as int) =~= items);
    let navi_len = match page_json.get2("data", "navi") {
        Some(v) => v.len(),
        None => 0,
    };
    if 0 < navi_len {
        let title = match page_json.get2("data", "navi") {
            Some(navi) => match navi.at(navi_len - 1) {
                Some(item) => match item.at(0) {
                    Some(first) => match first.as_str() {
                        Some(s) => Json::from_str(s),
                        None => Json::Null,
                    },
                    None => Json::Null,
                },
                None => Json::Null,
            },
            None => Json::Null,
        };
        proof {
            lemma_ss_data_set3_other(page_json@, "page"@, "title"@, title@);
        }
        page_json.set3("data", "page", "title", title);
    }
}

fn last_href_exec(attrs: &Vec<dom::Attr>) -> (r: String)
    ensures
        r@ == last_href(dom::attrs_view(attrs@)),
{
    let ghost a = dom::attrs_view(attrs@);
    let mut href = String::new();
    proof {
        reveal_strlit("href");
    }
    let mut i: usize = 0;
    while i < attrs.len()
        invariant
            i <= attrs.len(),
            a == dom::attrs_view(attrs@),
            href@ == last_href(a.subrange(0, i as int)),
        decreases attrs.len() - i,
    {
        assert(a.subrange(0, i + 1).drop_last() =~= a.subrange(0, i as int));
        assert(a[i as int] == attrs@[i as int]@);
        if text::str_eq(attrs[i].name.local.as_str(), "href") {
            href = attrs[i].value.clone();
        }
        i = i + 1;
    }
    assert(a.subrange(0, i as int) =~= a);
    href
}

fn first_child_name_exec(n: &DomNode) -> (r: String)
    ensures
        r@ == first_child_name(n@.children),
{
    proof {
        dom::lemma_children_view(*n);
        reveal_strlit("\n");
        reveal_strlit("");
        assert(""@ =~= Seq::<char>::empty());
    }
    if n.children.len() > 0 {
        assert(n@.children[0] == n.children@[0]@);
        match &n.children[0].data {
            NodeKind::Text { contents } => text::replace(contents.as_str(), "\n", ""),
            _ => String::new(),
        }
    } else {
        String::new()
    }
}

fn navi_a_list(node: &DomNode) -> (r: Vec<DomNode>)
    ensures
        dom::views(r@) == navi_a_list_spec(node@),
{
    let a_list = navi_a_list_navi_base(node);
    if 0 < a_list.len() {
        return a_list;
    }
    navi_list_from_body(node)
}

fn navi_a_list_navi_base(node: &DomNode) -> (r: Vec<DomNode>)
    ensures
        dom::views(r@) == navi_base_list(node@),
{
    let base_ptn = node_element("div", &vec![("class", "naviBase")]);
    assert(base_ptn@.data->Element_attrs =~= seq![attr_spec("class"@, "naviBase"@)]);
    let base_list = child_match_list(node, &base_ptn, true);
    if base_list.len() < 1 {
        let empty: Vec<DomNode> = Vec::new();
        assert(dom::views(empty@) =~= Seq::<NodeV>::empty());
        return empty;
    }
    assert(base_list@[0]@ == dom::views(base_list@)[0]);
    let a_ptn = node_element("a", &vec![]);
    assert(a_ptn@.data->Element_attrs =~= Seq::empty());
    child_match_list(&base_list[0], &a_ptn, true)
}

fn has_top_href_exec(attrs: &Vec<dom::Attr>) -> (r: bool)
    ensures
        r == has_top_href(dom::attrs_view(attrs@)),
{
    let ghost a = dom::attrs_view(attrs@);
    let mut i: usize = 0;
    while i < attrs.len()
        invariant
            i <= attrs.len(),
            a == dom::attrs_view(attrs@),
            forall|k: int|
                0 <= k < i ==> !((#[trigger] a[k]).name.local == "href"@ && text::contains_spec(
                    a[k].value,
                    "top.html"@,
                )),
        decreases attrs.len() - i,
    {
        assert(a[i as int] == attrs@[i as int]@);
        if text::str_eq(attrs[i].name.local.as_str(), "href") && text::contains(
            attrs[i].value.as_str(),
            "top.html",
        ) {
            return true;
        }
        i = i + 1;
    }
    false
}

fn is_top_a_exec(c: &DomNode) -> (r: bool)
    ensures
        r == is_top_a(c@),
{
    match &c.data {
        NodeKind::Element { name, attrs } => {
            proof {
                reveal_strlit("a");
                pdu::lemma_attrs_match_empty(dom::attrs_view(attrs@));
            }
            text::str_eq(name.local.as_str(), "a") && has_top_href_exec(attrs)
        },
        _ => false,
    }
}

proof fn lemma_top_a_parents_push(cs: Seq<NodeV>, c: NodeV, p: NodeV)
    ensures
        top_a_parents_in(cs.push(c), p) == top_a_parents_in(cs, p) + (if is_top_a(c) {
            seq![p]
        } else {
            Seq::empty()
        }) + top_a_parents(c),
{
    assert(cs.push(c).subrange(0, cs.len() as int) =~= cs);
}

/// The parent of the last link to a top page below `p`.
fn last_top_a_parent(p: &DomNode) -> (r: Option<DomNode>)
    ensures
        r matches Some(x) ==> last_opt(top_a_parents(p@)) == Some(x@),
        r is None ==> last_opt(top_a_parents(p@)) is None,
    decreases p,
{
    proof {
        dom::lemma_children_view(*p);
    }
    let ghost cs = p@.children;
    let mut last: Option<DomNode> = None;
    let mut i: usize = 0;
    while i < p.children.len()
        invariant
            i <= p.children.len(),
            cs == p@.children,
            cs == dom::views(p.children@),
            last matches Some(x) ==> last_opt(top_a_parents_in(cs.subrange(0, i as int), p@)) == Some(x@),
            last is None ==> last_opt(top_a_parents_in(cs.subrange(0, i as int), p@)) is None,
        decreases p.children.len() - i,
    {
        let c = &p.children[i];
        assert(cs[i as int] == c@);
        proof {
            assert(cs.subrange(0, i + 1) =~= cs.subrange(0, i as int).push(c@));
            lemma_top_a_parents_push(cs.subrange(0, i as int), c@, p@);
            assert(decreases_to!(*p => p.children));
            vstd::std_specs::vec::axiom_vec_index_decreases(p.children, i as int);
        }
        if is_top_a_exec(c) {
            last = Some(p.deep_clone());
        }
        match last_top_a_parent(c) {
            Some(x) => {
                last = Some(x);
            },
            None => {},
        }
        i = i + 1;
    }
    assert(cs.subrange(0, i as int) =~= cs);
    last
}

fn has_href_attr(attrs: &Vec<dom::Attr>) -> (r: bool)
    ensures
        r == (pdu::attr_pos(dom::attrs_view(attrs@), "href"@) >= 0),
{
    let href = String::from_str("href");
    match pdu::attr_position(attrs, &href) {
        Some(_) => true,
        None => false,
    }
}

fn navi_list_from_body(node: &DomNode) -> (r: Vec<DomNode>)
    ensures
        dom::views(r@) == navi_list_from_body_spec(node@),
{
    let body_ptn = node_element("body", &vec![]);
    assert(body_ptn@.data->Element_attrs =~= Seq::empty());
    let body_list = child_match_list(node, &body_ptn, true);
    if body_list.len() < 1 {
        let empty: Vec<DomNode> = Vec::new();
        assert(dom::views(empty@) =~= Seq::<NodeV>::empty());
        return empty;
    }
    assert(body_list@[0]@ == dom::views(body_list@)[0]);
    let parent = match last_top_a_parent(&body_list[0]) {
        Some(p) => p,
        None => {
            let empty: Vec<DomNode> = Vec::new();
            assert(dom::views(empty@) =~= Seq::<NodeV>::empty());
            return empty;
        },
    };
    proof {
        dom::lemma_children_view(parent);
    }
    let ghost cs = parent@.children;
    let mut navi_list: Vec<DomNode> = Vec::new();
    let mut navi_last_text: Option<String> = None;
    let mut i: usize = 0;
    assert(dom::views(navi_list@) =~= Seq::<NodeV>::empty());
    while i < parent.children.len()
        invariant
            i <= parent.children.len(),
            cs == dom::views(parent.children@),
            dom::views(navi_list@) == navi_scan(cs.subrange(0, i as int)).0,
            navi_last_text matches Some(t) ==> navi_scan(cs.subrange(0, i as int)).1 == Some(t@),
            navi_last_text is None ==> navi_scan(cs.subrange(0, i as int)).1 is None,
        decreases parent.children.len() - i,
    {
        assert(cs.subrange(0, i + 1).drop_last() =~= cs.subrange(0, i as int));
        let child = &parent.children[i];
        assert(cs[i as int] == child@);
        match &child.data {
            NodeKind::Element { attrs, .. } => {
                if has_href_attr(attrs) {
                    let ghost before = dom::views(navi_list@);
                    navi_list.push(child.deep_clone());
                    assert(dom::views(navi_list@) =~= before.push(child@));
                    navi_last_text = None;
                }
            },
            NodeKind::Text { contents } => {
                navi_last_text = Some(contents.clone());
            },
            _ => {},
        }
        i = i + 1;
    }
    assert(cs.subrange(0, i as int) =~= cs);
    match navi_last_text {
        Some(last_text) => {
            let trimmed = text::trim(last_text.as_str());
            let lines = text::split_lines(trimmed.as_str());
            proof {
                text::lemma_lines_len(trimmed@);
                assert(lines@.map_values(|x: String| x@)[lines.len() - 1] == lines@[lines.len() - 1]@);
            }
            let last_name = &lines[lines.len() - 1];
            let mut a_last = node_element("a", &vec![]);
            assert(a_last@.data->Element_attrs =~= Seq::empty());
            let node_text = node_text(last_name.as_str());
            a_last.children.push(node_text);
            proof {
                dom::lemma_children_view(a_last);
            }
            assert(a_last@.children =~= seq![node_text_spec(last_name@)]);
            let ghost before = dom::views(navi_list@);
            navi_list.push(a_last);
            assert(dom::views(navi_list@) =~= before.push(a_with_text(last_name@)));
        },
        None => {},
    }
    navi_list
}

// ---------------------------------------------------------------------------
// Index list
// ---------------------------------------------------------------------------

/// The pattern `<li>`.
pub open spec fn li_ptn() -> NodeV {
    node_element_spec("li"@, Seq::empty())
}

/// The pattern `<ul>`.
pub open spec fn ul_ptn() -> NodeV {
    node_element_spec("ul"@, Seq::empty())
}

/// `<ul class="listItemBase">`, the index list of a page.
pub open spec fn ul_base_ptn() -> NodeV {
    node_element_spec("ul"@, seq![attr_spec("class"@, "listItemBase"@)])
}

/// The index lists of a page: the `<ul class="listItemBase">` elements, or
/// else all `<ul>` elements.
pub open spec fn index_ul_list_spec(n: NodeV) -> Seq<NodeV> {
    let b = matches_in(n.children, ul_base_ptn(), true);
    if b.len() > 0 {
        b
    } else {
        matches_in(n.children, ul_ptn(), true)
    }
}

/// The value of the first `href` attribute, an empty text when there is none.
pub open spec fn first_href(attrs: Seq<AttrV>) -> Seq<char> {
    let p = pdu::attr_pos(attrs, "href"@);
    if p >= 0 {
        attrs[p].value
    } else {
        Seq::empty()
    }
}

/// The contents of the first text among the nodes.
pub open spec fn first_text_of(cs: Seq<NodeV>) -> Option<Seq<char>>
    decreases cs.len(),
{
    if cs.len() == 0 {
        None
    } else {
        match cs[0].data {
            DataV::Text { contents } => Some(contents),
            _ => first_text_of(cs.subrange(1, cs.len() as int)),
        }
    }
}

/// The href and name of an index link: its first `href` value, and its
/// first text without line breaks.
pub open spec fn a_info(a: NodeV) -> (Seq<char>, Seq<char>) {
    match a.data {
        DataV::Element { attrs, .. } => (
            first_href(attrs),
            match first_text_of(a.children) {
                Some(t) => text::replace_spec(t, "\n"@, Seq::empty()),
                None => Seq::empty(),
            },
        ),
        _ => (Seq::empty(), Seq::empty()),
    }
}

/// The data with the subsection for `href` (made new under `pid` when there
/// is none) given the title `name` and the href.
pub open spec fn ss_new_titled(j: JVal, href: Seq<char>, pid: u32, name: Seq<char>) -> JVal {
    let (key, j1) = ss_json_new_spec(j, href, pid);
    ss_rec_set(
        ss_rec_set(j1, key, "title"@, jvalue::str_val(name)),
        key,
        "href"@,
        jvalue::str_val(href),
    )
}

/// The `parent` of the subsection with the href, 0 when there is none or it
/// is no `u32`.
pub open spec fn parent_of_href(j: JVal, href: Seq<char>) -> u32 {
    match ss_id_href_spec(j, href) {
        Some(id) => match jvalue::as_u32(jvalue::get(ss_rec(j, id), "parent"@)) {
            Some(i) => i,
            None => 0,
        },
        None => 0,
    }
}

/// The data after one index item: its first direct link becomes a
/// subsection under `pid`; a nested `<ul class="listItemBase">` is read in
/// turn, under the parent of that subsection.  (`h` bounds the height of
/// what is read; it only serves to show that the reading ends.)
pub open spec fn index_li(li: NodeV, j: JVal, pid: u32, h: nat) -> JVal
    decreases h, 0nat,
{
    let al = matches_in(li.children, a_ptn(), false);
    let href = if al.len() > 0 {
        a_info(al[0]).0
    } else {
        Seq::empty()
    };
    let j1 = if al.len() > 0 {
        ss_new_titled(j, href, pid, a_info(al[0]).1)
    } else {
        j
    };
    let uls = matches_in(li.children, ul_base_ptn(), true);
    if uls.len() > 0 && dom::height(uls[0]) < h {
        index_lis(
            matches_in(uls[0].children, li_ptn(), true),
            j1,
            parent_of_href(j1, href),
            dom::height(uls[0]),
        )
    } else {
        j1
    }
}

/// The data after the index items in order.
pub open spec fn index_lis(lis: Seq<NodeV>, j: JVal, pid: u32, h: nat) -> JVal
    decreases h, lis.len(),
{
    if lis.len() == 0 {
        j
    } else {
        index_li(lis.last(), index_lis(lis.drop_last(), j, pid, h), pid, h)
    }
}

/// The data after reading the index list `ul`: every `<li>` below it, in
/// document order.
pub open spec fn index_ul_spec(ul: NodeV, j: JVal, pid: u32) -> JVal {
    index_lis(matches_in(ul.children, li_ptn(), true), j, pid, dom::height(ul))
}

/// The data after reading the first index list of the page under the top
/// subsection.
pub open spec fn index_json_spec(n: NodeV, j: JVal) -> JVal {
    let l = index_ul_list_spec(n);
    if l.len() == 0 {
        j
    } else {
        index_ul_spec(l[0], j, 0)
    }
}

fn index_json_set(node: &DomNode, page_json: &mut Json)
    ensures
        final(page_json)@ == index_json_spec(node@, old(page_json)@),
        dju::ss_top(old(page_json)@) is Obj ==> dju::ss_top(final(page_json)@) is Obj,
        pz_kept(old(page_json)@, final(page_json)@),
        dju::parents_zero(old(page_json)@) ==> tree_kept(old(page_json)@, final(page_json)@),
{
    let ul_list = index_ul_list(node);
    if ul_list.len() < 1 {
        return;
    }
    assert(ul_list@[0]@ == dom::views(ul_list@)[0]);
    index_ul_json_set(&ul_list[0], page_json, 0);
}

fn index_ul_list(node: &DomNode) -> (r: Vec<DomNode>)
    ensures
        dom::views(r@) == index_ul_list_spec(node@),
{
    let ul_list = index_ul_list_base(node);
    if 0 < ul_list.len() {
        return ul_list;
    }
    index_ul_list_ul(node)
}

fn index_ul_list_base(node: &DomNode) -> (r: Vec<DomNode>)
    ensures
        dom::views(r@) == matches_in(node@.children, ul_base_ptn(), true),
{
    let ul_ptn = node_element("ul", &vec![("class", "listItemBase")]);
    assert(ul_ptn@.data->Element_attrs =~= seq![attr_spec("class"@, "listItemBase"@)]);
    child_match_list(node, &ul_ptn, true)
}

fn index_ul_list_ul(node: &DomNode) -> (r: Vec<DomNode>)
    ensures
        dom::views(r@) == matches_in(node@.children, ul_ptn(), true),
{
    let ul_ptn = node_element("ul", &vec![]);
    assert(ul_ptn@.data->Element_attrs =~= Seq::empty());
    child_match_list(node, &ul_ptn, true)
}

fn first_href_exec(attrs: &Vec<dom::Attr>) -> (r: String)
    ensures
        r@ == first_href(dom::attrs_view(attrs@)),
{
    let href = String::from_str("href");
    match pdu::attr_position(attrs, &href) {
        Some(p) => {
            assert(dom::attrs_view(attrs@)[p as int] == attrs@[p as int]@);
            attrs[p].value.clone()
        },
        None => String::new(),
    }
}

fn first_text_name(a: &DomNode) -> (r: String)
    ensures
        r@ == match first_text_of(a@.children) {
            Some(t) => text::replace_spec(t, "\n"@, Seq::empty()),
            None => Seq::empty(),
        },
{
    proof {
        dom::lemma_children_view(*a);
        reveal_strlit("\n");
        reveal_strlit("");
        assert(""@ =~= Seq::<char>::empty());
    }
    let ghost cs = a@.children;
    assert(cs.subrange(0, cs.len() as int) =~= cs);
    let mut i: usize = 0;
    while i < a.children.len()
        invariant
            i <= a.children.len(),
            cs == a@.children,
            cs == dom::views(a.children@),
            first_text_of(cs) == first_text_of(cs.subrange(i as int, cs.len() as int)),
        decreases a.children.len() - i,
    {
        let c = &a.children[i];
        assert(cs[i as int] == c@);
        let ghost rest = cs.subrange(i as int, cs.len() as int);
        assert(rest[0] == c@);
        assert(rest.subrange(1, rest.len() as int) =~= cs.subrange(i + 1, cs.len() as int));
        match &c.data {
            NodeKind::Text { contents } => {
                proof {
                    reveal_strlit("\n");
                    reveal_strlit("");
                    assert(""@ =~= Seq::<char>::empty());
                }
                return text::replace(contents.as_str(), "\n", "");
            },
            _ => {},
        }
        i = i + 1;
    }
    assert(cs.subrange(i as int, cs.len() as int) =~= Seq::<NodeV>::empty());
    String::new()
}

fn parent_of_href_exec(page_json: &Json, href: &str) -> (r: u32)
    ensures
        r == parent_of_href(page_json@, href@),
{
    match dju::ss_json_href(page_json, href) {
        Some(id) => match page_json.get4("data", "subsection", "data", id.as_str()) {
            Some(rec) => match rec.get("parent") {
                Some(p) => match p.as_u32() {
                    Some(i) => i,
                    None => 0,
                },
                None => 0,
            },
            None => 0,
        },
        None => 0,
    }
}

fn index_ul_json_set(node: &DomNode, page_json: &mut Json, pid: u32)
    ensures
        final(page_json)@ == index_ul_spec(node@, old(page_json)@, pid),
        dju::ss_top(old(page_json)@) is Obj ==> dju::ss_top(final(page_json)@) is Obj,
        pid == 0 ==> pz_kept(old(page_json)@, final(page_json)@),
        pid == 0 && dju::parents_zero(old(page_json)@) ==> tree_kept(old(page_json)@, final(page_json)@),
    decreases dom::height(node@),
{
    let li_p = node_element("li", &vec![]);
    assert(li_p@.data->Element_attrs =~= Seq::empty());
    let li_list = child_match_list(node, &li_p, true);
    let a_p = node_element("a", &vec![]);
    assert(a_p@.data->Element_attrs =~= Seq::empty());
    let ul_p = node_element("ul", &vec![("class", "listItemBase")]);
    assert(ul_p@.data->Element_attrs =~= seq![attr_spec("class"@, "listItemBase"@)]);
    let ghost lis = dom::views(li_list@);
    let ghost h = dom::height(node@);
    let ghost j0 = page_json@;
    proof {
        pdu::lemma_matches_height(node@.children, li_ptn(), true);
        lemma_literals();
    }
    let mut i: usize = 0;
    while i < li_list.len()
        invariant
            i <= li_list.len(),
            lis == dom::views(li_list@),
            lis == matches_in(node@.children, li_ptn(), true),
            h == dom::height(node@),
            forall|k: int| 0 <= k < lis.len() ==> dom::height(#[trigger] lis[k]) < h,
            li_p@ == li_ptn(),
            a_p@ == a_ptn(),
            ul_p@ == ul_base_ptn(),
            page_json@ == index_lis(lis.subrange(0, i as int), j0, pid, h),
            dju::ss_top(j0) is Obj ==> dju::ss_top(page_json@) is Obj,
            pid == 0 ==> pz_kept(j0, page_json@),
            pid == 0 && dju::parents_zero(j0) ==> tree_kept(j0, page_json@),
            "title"@ != "href"@,
            "title"@ != "child"@,
            "href"@ != "child"@,
            "title"@ != "parent"@,
            "href"@ != "parent"@,
        decreases li_list.len() - i,
    {
        let li = &li_list[i];
        assert(lis[i as int] == li@);
        assert(lis.subrange(0, i + 1).drop_last() =~= lis.subrange(0, i as int));
        assert(lis.subrange(0, i + 1).last() == li@);
        let ghost jb = page_json@;
        let a_list = child_match_list(li, &a_p, false);
        let mut href = String::new();
        if a_list.len() > 0 {
            let a = &a_list[0];
            assert(dom::views(a_list@)[0] == a@);
            let mut name = String::new();
            match &a.data {
                NodeKind::Element { attrs, .. } => {
                    href = first_href_exec(attrs);
                    name = first_text_name(a);
                },
                _ => {},
            }
            assert((href@, name@) == a_info(a@));
            let key = dju::ss_json_new(page_json, href.as_str(), pid);
            proof {
                lemma_top_after_new(jb, href@, pid);
                if pid == 0 && dju::parents_zero(jb) {
                    dju::lemma_pz_new(jb, href@);
                }
                if pid == 0 {
                    dju::lemma_tree_new(jb, href@, href@);
                }
            }
            ss_set_field(page_json, key.as_str(), "title", Json::from_str(name.as_str()));
            ss_set_field(page_json, key.as_str(), "href", Json::from_str(href.as_str()));
        }
        let ghost al = dom::views(a_list@);
        assert(href@ == (if al.len() > 0 {
            a_info(al[0]).0
        } else {
            Seq::<char>::empty()
        }));
        let ghost j1 = if al.len() > 0 {
            ss_new_titled(jb, href@, pid, a_info(al[0]).1)
        } else {
            jb
        };
        assert(page_json@ == j1);
        let ul_list = child_match_list(li, &ul_p, true);
        if 0 < ul_list.len() {
            let sub_pid = parent_of_href_exec(page_json, href.as_str());
            proof {
                if dju::parents_zero(page_json@) {
                    dju::lemma_pz_parent(page_json@, href@);
                }
            }
            assert(ul_list@[0]@ == dom::views(ul_list@)[0]);
            proof {
                pdu::lemma_matches_height(li@.children, ul_base_ptn(), true);
                assert(dom::height(li@) == 1 + dom::heights_max(li@.children));
            }
            index_ul_json_set(&ul_list[0], page_json, sub_pid);
        }
        assert(page_json@ == index_li(li@, jb, pid, h));
        i = i + 1;
    }
    assert(lis.subrange(0, i as int) =~= lis);
}

// ---------------------------------------------------------------------------
// Subsections
// ---------------------------------------------------------------------------

/// Whether some `class` attribute has `inline0` as its whole value.
pub open spec fn pre_inline0(attrs: Seq<AttrV>) -> bool {
    exists|k: int|
        0 <= k < attrs.len() && (#[trigger] attrs[k]).name.local == "class"@ && attrs[k].value
            == "inline0"@
}

/// The property of a node that reading a script sample needs: a
/// `<pre class="inline0">` has a child.
pub open spec fn pre_ok() -> spec_fn(NodeV) -> bool {
    |x: NodeV|
        match x.data {
            DataV::Element { name, attrs } => (name.local == "pre"@ && pre_inline0(attrs))
                ==> x.children.len() > 0,
            _ => true,
        }
}

/// What reading subsections out of the trees needs of them: no `Document`
/// node below the root, and a child in every `<pre class="inline0">`.
pub open spec fn page_tree_ok(cs: Seq<NodeV>) -> bool {
    dom::tree_all_in(cs, dom::not_doc()) && dom::tree_all_in(cs, pre_ok())
}

proof fn lemma_match_ok(cs: Seq<NodeV>, ptn: NodeV, rec: bool, i: int)
    requires
        page_tree_ok(cs),
        0 <= i < matches_in(cs, ptn, rec).len(),
    ensures
        page_tree_ok(matches_in(cs, ptn, rec)[i].children),
{
    pdu::lemma_matches_tree_all(cs, ptn, rec, dom::not_doc());
    pdu::lemma_matches_tree_all(cs, ptn, rec, pre_ok());
    let m = matches_in(cs, ptn, rec)[i];
    assert(dom::tree_all(m, dom::not_doc()));
    assert(dom::tree_all(m, pre_ok()));
}

/// `<div class="subsection">`.
pub open spec fn ss_div_ptn() -> NodeV {
    node_element_spec("div"@, seq![attr_spec("class"@, "subsection"@)])
}

/// `<div class="subsectionContent">`.
pub open spec fn ss_content_ptn() -> NodeV {
    node_element_spec("div"@, seq![attr_spec("class"@, "subsectionContent"@)])
}

/// `<div class="subsectionTitle">`.
pub open spec fn ss_title_ptn() -> NodeV {
    node_element_spec("div"@, seq![attr_spec("class"@, "subsectionTitle"@)])
}

/// `<div class="subsectionBody">`.
pub open spec fn ss_body_ptn() -> NodeV {
    node_element_spec("div"@, seq![attr_spec("class"@, "subsectionBody"@)])
}

/// The pattern `<div>`.
pub open spec fn div_ptn() -> NodeV {
    node_element_spec("div"@, Seq::empty())
}

/// Whether some `class` attribute lists `v` among its words.
pub open spec fn has_class(attrs: Seq<AttrV>, v: Seq<char>) -> bool {
    exists|k: int|
        0 <= k < attrs.len() && (#[trigger] attrs[k]).name.local == "class"@ && text::has_word_spec(
            attrs[k].value,
            v,
        )
}

fn class_contains(attrs: &Vec<dom::Attr>, v: &str) -> (r: bool)
    ensures
        r == has_class(dom::attrs_view(attrs@), v@),
{
    let ghost a = dom::attrs_view(attrs@);
    let mut i: usize = 0;
    while i < attrs.len()
        invariant
            i <= attrs.len(),
            a == dom::attrs_view(attrs@),
            forall|k: int|
                0 <= k < i ==> !((#[trigger] a[k]).name.local == "class"@ && text::has_word_spec(
                    a[k].value,
                    v@,
                )),
        decreases attrs.len() - i,
    {
        assert(a[i as int] == attrs@[i as int]@);
        if text::str_eq(attrs[i].name.local.as_str(), "class") && text::has_word(
            attrs[i].value.as_str(),
            v,
        ) {
            return true;
        }
        i = i + 1;
    }
    false
}

/// What a child of a script sample adds to the script: a text its contents,
/// `<br>` a line break, `<pre class="inline0">` its first child's text.
pub open spec fn script_piece(c: NodeV) -> Seq<char> {
    match c.data {
        DataV::Text { contents } => contents,
        DataV::Element { name, attrs } => (if name.local == "br"@ {
            "\n"@
        } else {
            Seq::empty()
        }) + (if name.local == "pre"@ && pre_inline0(attrs) && c.children.len() > 0 {
            match c.children[0].data {
                DataV::Text { contents } => contents,
                _ => Seq::empty(),
            }
        } else {
            Seq::empty()
        }),
        _ => Seq::empty(),
    }
}

/// The script of a script sample: the pieces of its children in order.
pub open spec fn script_text(cs: Seq<NodeV>) -> Seq<char>
    decreases cs.len(),
{
    if cs.len() == 0 {
        Seq::empty()
    } else {
        script_text(cs.drop_last()) + script_piece(cs.last())
    }
}

/// The data with a text content item pushed for each text child.
pub open spec fn text_pushes(cs: Seq<NodeV>, j: JVal, key: Seq<char>) -> JVal
    decreases cs.len(),
{
    if cs.len() == 0 {
        j
    } else {
        let j1 = text_pushes(cs.drop_last(), j, key);
        match cs.last().data {
            DataV::Text { contents } => ss_content_push(j1, key, content_obj("text"@, contents)),
            _ => j1,
        }
    }
}

/// The content items of one content block of a subsection: HTML, a script
/// sample, or texts, by its class.
pub open spec fn content_div_step(cd: NodeV, j: JVal, key: Seq<char>) -> JVal {
    match cd.data {
        DataV::Element { attrs, .. } => if has_class(attrs, "htmlContent"@) {
            ss_content_push(j, key, content_obj("html"@, dom::html_serialize_spec(cd.children)))
        } else if has_class(attrs, "scriptSample"@) {
            ss_content_push(j, key, content_obj("script"@, script_text(cd.children)))
        } else if has_class(attrs, "textContent"@) {
            text_pushes(cd.children, j, key)
        } else {
            j
        },
        _ => j,
    }
}

/// The content items of the content blocks in order.
pub open spec fn content_set_spec(cds: Seq<NodeV>, j: JVal, key: Seq<char>) -> JVal
    decreases cds.len(),
{
    if cds.len() == 0 {
        j
    } else {
        content_div_step(cds.last(), content_set_spec(cds.drop_last(), j, key), key)
    }
}

/// The text of the title of a subsection: the first child of its first
/// direct `<div class="subsectionTitle">`, when that is a text.
pub open spec fn node_subsection_title_spec(div: NodeV) -> Option<Seq<char>> {
    let tl = matches_in(div.children, ss_title_ptn(), false);
    if tl.len() == 0 || tl[0].children.len() == 0 {
        None
    } else {
        match tl[0].children[0].data {
            DataV::Text { contents } => Some(contents),
            _ => None,
        }
    }
}

/// The data with a subsection for the href: unchanged when there is one,
/// otherwise a new one under the top subsection titled from the block.
pub open spec fn ss_prepare_spec(j: JVal, div: NodeV, href: Seq<char>) -> JVal {
    if ss_id_href_spec(j, href) is Some {
        j
    } else {
        let (key, j1) = ss_json_new_spec(j, href, 0);
        ss_rec_set(
            j1,
            key,
            "title"@,
            jvalue::str_val(
                match node_subsection_title_spec(div) {
                    Some(t) => t,
                    None => "no title"@,
                },
            ),
        )
    }
}

/// The data after reading a subsection block with id `id`: `None` (nothing
/// read) when it has no content block, no `<div>` in it, or is the template;
/// otherwise the subsection for `#id`, made when needed, gets the content
/// items of the blocks.
pub open spec fn subsection_set_spec(j: JVal, div: NodeV, id: Seq<char>) -> Option<JVal> {
    let cl = matches_in(div.children, ss_content_ptn(), true);
    if cl.len() == 0 {
        None
    } else {
        let cds = matches_in(cl[0].children, div_ptn(), false);
        if cds.len() == 0 || id == "subsection_template"@ {
            None
        } else {
            let href = "#"@ + id;
            let j1 = ss_prepare_spec(j, div, href);
            Some(content_set_spec(cds, j1, ss_id_href_spec(j1, href)->Some_0))
        }
    }
}

/// The data after trying the `id` attributes of a subsection block in
/// order, until one is read.
pub open spec fn ss_attrs_spec(attrs: Seq<AttrV>, div: NodeV, j: JVal) -> JVal
    decreases attrs.len(),
{
    if attrs.len() == 0 {
        j
    } else {
        let rest = attrs.subrange(1, attrs.len() as int);
        if attrs[0].name.local == "id"@ {
            match subsection_set_spec(j, div, attrs[0].value) {
                Some(j1) => j1,
                None => ss_attrs_spec(rest, div, j),
            }
        } else {
            ss_attrs_spec(rest, div, j)
        }
    }
}

/// The data after reading the subsection blocks in order.
pub open spec fn ss_divs_spec(divs: Seq<NodeV>, j: JVal) -> JVal
    decreases divs.len(),
{
    if divs.len() == 0 {
        j
    } else {
        let j1 = ss_divs_spec(divs.drop_last(), j);
        match divs.last().data {
            DataV::Element { attrs, .. } => ss_attrs_spec(attrs, divs.last(), j1),
            _ => j1,
        }
    }
}

/// The data after reading the subsection blocks of the page.
pub open spec fn subsection_json_spec(n: NodeV, j: JVal) -> JVal {
    ss_divs_spec(matches_in(n.children, ss_div_ptn(), true), j)
}

proof fn lemma_prepare_finds(j: JVal, title: JVal, href: Seq<char>)
    ensures
        ss_id_href_spec(j, href) is None ==> ss_id_href_spec(
            ss_rec_set(ss_json_new_spec(j, href, 0).1, ss_json_new_spec(j, href, 0).0, "title"@, title),
            href,
        ) == Some(ss_json_new_spec(j, href, 0).0),
{
    if ss_id_href_spec(j, href) is None {
        dju::lemma_ss_json_new_href(j, href, 0);
        lemma_literals();
        lemma_href_after_rec_set(
            ss_json_new_spec(j, href, 0).1,
            ss_json_new_spec(j, href, 0).0,
            "title"@,
            title,
            href,
        );
    }
}

fn subsection_json_set(node: &DomNode, page_json: &mut Json)
    requires
        page_tree_ok(node@.children),
    ensures
        final(page_json)@ == subsection_json_spec(node@, old(page_json)@),
        dju::ss_top(old(page_json)@) is Obj ==> dju::ss_top(final(page_json)@) is Obj,
        pz_kept(old(page_json)@, final(page_json)@),
        tree_kept(old(page_json)@, final(page_json)@),
{
    let subsection_ptn = node_element("div", &vec![("class", "subsection")]);
    assert(subsection_ptn@.data->Element_attrs =~= seq![attr_spec("class"@, "subsection"@)]);
    let subsection_div_list = child_match_list(node, &subsection_ptn, true);
    let ghost divs = dom::views(subsection_div_list@);
    let ghost j0 = page_json@;
    let mut i: usize = 0;
    while i < subsection_div_list.len()
        invariant
            i <= subsection_div_list.len(),
            divs == dom::views(subsection_div_list@),
            divs == matches_in(node@.children, ss_div_ptn(), true),
            page_tree_ok(node@.children),
            page_json@ == ss_divs_spec(divs.subrange(0, i as int), j0),
            dju::ss_top(j0) is Obj ==> dju::ss_top(page_json@) is Obj,
            pz_kept(j0, page_json@),
            tree_kept(j0, page_json@),
        decreases subsection_div_list.len() - i,
    {
        let div = &subsection_div_list[i];
        assert(divs[i as int] == div@);
        assert(divs.subrange(0, i + 1).drop_last() =~= divs.subrange(0, i as int));
        proof {
            lemma_match_ok(node@.children, ss_div_ptn(), true, i as int);
        }
        match &div.data {
            NodeKind::Element { attrs, .. } => {
                let ghost a = dom::attrs_view(attrs@);
                let ghost jb = page_json@;
                let mut k: usize = 0;
                let mut done = false;
                assert(a.subrange(0, a.len() as int) =~= a);
                while k < attrs.len() && !done
                    invariant
                        k <= attrs.len(),
                        a == dom::attrs_view(attrs@),
                        page_tree_ok(div@.children),
                        done ==> page_json@ == ss_attrs_spec(a, div@, jb),
                        !done ==> page_json@ == jb && ss_attrs_spec(a, div@, jb) == ss_attrs_spec(
                            a.subrange(k as int, a.len() as int),
                            div@,
                            jb,
                        ),
                        dju::ss_top(jb) is Obj ==> dju::ss_top(page_json@) is Obj,
                        pz_kept(jb, page_json@),
                        tree_kept(jb, page_json@),
                    decreases attrs.len() - k,
                {
                    let ghost rest = a.subrange(k as int, a.len() as int);
                    assert(rest[0] == attrs@[k as int]@);
                    assert(rest.subrange(1, rest.len() as int) =~= a.subrange(k + 1, a.len() as int));
                    if text::str_eq(attrs[k].name.local.as_str(), "id") {
                        if subsection_set(page_json, div, attrs[k].value.as_str()) {
                            done = true;
                        }
                    }
                    k = k + 1;
                }
                if !done {
                    assert(a.subrange(k as int, a.len() as int) =~= Seq::<AttrV>::empty());
                }
            },
            _ => {},
        }
        i = i + 1;
    }
    assert(divs.subrange(0, i as int) =~= divs);
}

fn node_subsection_title(node_subsection: &DomNode) -> (r: Option<String>)
    ensures
        r matches Some(t) ==> node_subsection_title_spec(node_subsection@) == Some(t@),
        r is None ==> node_subsection_title_spec(node_subsection@) is None,
{
    let title_for = node_element("div", &vec![("class", "subsectionTitle")]);
    assert(title_for@.data->Element_attrs =~= seq![attr_spec("class"@, "subsectionTitle"@)]);
    let title_list = child_match_list(node_subsection, &title_for, false);
    if title_list.len() < 1 {
        return None;
    }
    let t = &title_list[0];
    assert(dom::views(title_list@)[0] == t@);
    proof {
        dom::lemma_children_view(*t);
    }
    if t.children.len() < 1 {
        return None;
    }
    assert(t@.children[0] == t.children@[0]@);
    match &t.children[0].data {
        NodeKind::Text { contents } => Some(contents.clone()),
        _ => None,
    }
}

fn subsection_set(page_json: &mut Json, subsection_div: &DomNode, id: &str) -> (r: bool)
    requires
        page_tree_ok(subsection_div@.children),
    ensures
        subsection_set_spec(old(page_json)@, subsection_div@, id@) matches Some(j) ==> (r
            && final(page_json)@ == j),
        subsection_set_spec(old(page_json)@, subsection_div@, id@) is None ==> (!r
            && final(page_json)@ == old(page_json)@),
        dju::ss_top(old(page_json)@) is Obj ==> dju::ss_top(final(page_json)@) is Obj,
        pz_kept(old(page_json)@, final(page_json)@),
        tree_kept(old(page_json)@, final(page_json)@),
{
    let subsection_content_ptn = node_element("div", &vec![("class", "subsectionContent")]);
    assert(subsection_content_ptn@.data->Element_attrs =~= seq![attr_spec("class"@, "subsectionContent"@)]);
    let subsection_content_list = child_match_list(subsection_div, &subsection_content_ptn, true);
    if subsection_content_list.len() < 1 {
        return false;
    }
    let cl0 = &subsection_content_list[0];
    assert(dom::views(subsection_content_list@)[0] == cl0@);
    let content_div_ptn = node_element("div", &vec![]);
    assert(content_div_ptn@.data->Element_attrs =~= Seq::empty());
    let content_div_list = child_match_list(cl0, &content_div_ptn, false);
    if content_div_list.len() < 1 {
        return false;
    }
    if text::str_eq(id, "subsection_template") {
        return false;
    }
    proof {
        lemma_match_ok(subsection_div@.children, ss_content_ptn(), true, 0);
        assert forall|i: int| 0 <= i < dom::views(content_div_list@).len() implies page_tree_ok(
            #[trigger] dom::views(content_div_list@)[i].children,
        ) by {
            lemma_match_ok(cl0@.children, div_ptn(), false, i);
        }
    }
    let href = text::concat("#", id);
    proof {
        reveal_strlit("#");
    }
    ss_json_prepare(page_json, subsection_div, href.as_str());
    proof {
        dju::lemma_found_key_in(page_json@, href@);
    }
    let key = match dju::ss_json_href(page_json, href.as_str()) {
        Some(k) => k,
        None => String::new(),
    };
    content_set(&content_div_list, page_json, key.as_str());
    true
}

fn ss_json_prepare(page_json: &mut Json, subsection_div: &DomNode, href: &str)
    ensures
        final(page_json)@ == ss_prepare_spec(old(page_json)@, subsection_div@, href@),
        ss_id_href_spec(final(page_json)@, href@) is Some,
        dju::ss_top(old(page_json)@) is Obj ==> dju::ss_top(final(page_json)@) is Obj,
        pz_kept(old(page_json)@, final(page_json)@),
        tree_kept(old(page_json)@, final(page_json)@),
{
    if let Some(_) = dju::ss_json_href(page_json, href) {
        return;
    }
    let title = match node_subsection_title(subsection_div) {
        Some(t) => t,
        None => String::from_str("no title"),
    };
    let pid: u32 = 0;
    let ghost j0 = page_json@;
    let key = dju::ss_json_new(page_json, href, pid);
    proof {
        lemma_top_after_new(j0, href@, pid);
        if dju::parents_zero(j0) {
            dju::lemma_pz_new(j0, href@);
        }
        dju::lemma_tree_new(j0, href@, href@);
        lemma_literals();
        lemma_prepare_finds(j0, jvalue::str_val(title@), href@);
    }
    ss_set_field(page_json, key.as_str(), "title", Json::from_str(title.as_str()));
}

fn content_set(content_div_list: &Vec<DomNode>, page_json: &mut Json, key: &str)
    requires
        forall|i: int|
            0 <= i < content_div_list@.len() ==> page_tree_ok(
                #[trigger] dom::views(content_div_list@)[i].children,
            ),
    ensures
        final(page_json)@ == content_set_spec(dom::views(content_div_list@), old(page_json)@, key@),
        dju::ss_top(old(page_json)@) is Obj ==> dju::ss_top(final(page_json)@) is Obj,
        pz_kept(old(page_json)@, final(page_json)@),
        dju::key_in(old(page_json)@, key@) ==> (tree_kept(old(page_json)@, final(page_json)@) && dju::key_in(final(page_json)@, key@)),
{
    let ghost cds = dom::views(content_div_list@);
    let ghost j0 = page_json@;
    let mut i: usize = 0;
    while i < content_div_list.len()
        invariant
            i <= content_div_list.len(),
            cds == dom::views(content_div_list@),
            forall|k: int| 0 <= k < cds.len() ==> page_tree_ok(#[trigger] cds[k].children),
            page_json@ == content_set_spec(cds.subrange(0, i as int), j0, key@),
            dju::ss_top(j0) is Obj ==> dju::ss_top(page_json@) is Obj,
            pz_kept(j0, page_json@),
            dju::key_in(j0, key@) ==> (tree_kept(j0, page_json@) && dju::key_in(page_json@, key@)),
        decreases content_div_list.len() - i,
    {
        let content_div = &content_div_list[i];
        assert(cds[i as int] == content_div@);
        assert(cds.subrange(0, i + 1).drop_last() =~= cds.subrange(0, i as int));
        assert(page_tree_ok(content_div@.children));
        match &content_div.data {
            NodeKind::Element { attrs, .. } => {
                if class_contains(attrs, "htmlContent") {
                    let html = content_html_parse(content_div);
                    ss_push_content(page_json, key, content_json("html", html.as_str()));
                } else if class_contains(attrs, "scriptSample") {
                    content_script_set(content_div, page_json, key);
                } else if class_contains(attrs, "textContent") {
                    content_text_set(content_div, page_json, key);
                }
            },
            _ => {},
        }
        i = i + 1;
    }
    assert(cds.subrange(0, i as int) =~= cds);
}

fn content_html_parse(node: &DomNode) -> (r: String)
    requires
        dom::doc_free_in(node@.children),
    ensures
        r@ == dom::html_serialize_spec(node@.children),
{
    dom::serialize_children(node)
}

fn pre_inline0_exec(attrs: &Vec<dom::Attr>) -> (r: bool)
    ensures
        r == pre_inline0(dom::attrs_view(attrs@)),
{
    let ghost a = dom::attrs_view(attrs@);
    let mut i: usize = 0;
    while i < attrs.len()
        invariant
            i <= attrs.len(),
            a == dom::attrs_view(attrs@),
            forall|k: int|
                0 <= k < i ==> !((#[trigger] a[k]).name.local == "class"@ && a[k].value
                    == "inline0"@),
        decreases attrs.len() - i,
    {
        assert(a[i as int] == attrs@[i as int]@);
        if text::str_eq(attrs[i].name.local.as_str(), "class") && text::str_eq(
            attrs[i].value.as_str(),
            "inline0",
        ) {
            return true;
        }
        i = i + 1;
    }
    false
}

fn content_script_set(content_div: &DomNode, page_json: &mut Json, key: &str)
    requires
        page_tree_ok(content_div@.children),
    ensures
        final(page_json)@ == ss_content_push(
            old(page_json)@,
            key@,
            content_obj("script"@, script_text(content_div@.children)),
        ),
        dju::ss_top(old(page_json)@) is Obj ==> dju::ss_top(final(page_json)@) is Obj,
        pz_kept(old(page_json)@, final(page_json)@),
        dju::key_in(old(page_json)@, key@) ==> (tree_kept(old(page_json)@, final(page_json)@) && dju::key_in(final(page_json)@, key@)),
{
    proof {
        dom::lemma_children_view(*content_div);
        dom::lemma_tree_all_in(content_div@.children, pre_ok());
    }
    let ghost cs = content_div@.children;
    let mut script = String::new();
    let mut i: usize = 0;
    while i < content_div.children.len()
        invariant
            i <= content_div.children.len(),
            cs == dom::views(content_div.children@),
            forall|k: int| 0 <= k < cs.len() ==> dom::tree_all(#[trigger] cs[k], pre_ok()),
            script@ == script_text(cs.subrange(0, i as int)),
        decreases content_div.children.len() - i,
    {
        let child = &content_div.children[i];
        assert(cs[i as int] == child@);
        assert(cs.subrange(0, i + 1).drop_last() =~= cs.subrange(0, i as int));
        let ghost before = script@;
        proof {
            reveal_strlit("\n");
            reveal_strlit("br");
            reveal_strlit("pre");
            assert(dom::tree_all(child@, pre_ok()));
            dom::lemma_children_view(*child);
        }
        match &child.data {
            NodeKind::Text { contents } => {
                script.append(contents.as_str());
            },
            NodeKind::Element { name, attrs } => {
                if text::str_eq(name.local.as_str(), "br") {
                    script.append("\n");
                }
                let ghost mid = script@;
                if text::str_eq(name.local.as_str(), "pre") && pre_inline0_exec(attrs) {
                    assert(child.children.len() > 0);
                    assert(child@.children[0] == child.children@[0]@);
                    match &child.children[0].data {
                        NodeKind::Text { contents } => {
                            script.append(contents.as_str());
                        },
                        _ => {},
                    }
                }
                assert(script@ =~= before + script_piece(child@));
            },
            _ => {},
        }
        assert(script@ =~= before + script_piece(child@));
        i = i + 1;
    }
    assert(cs.subrange(0, i as int) =~= cs);
    ss_push_content(page_json, key, content_json("script", script.as_str()));
}

fn content_text_set(content_div: &DomNode, page_json: &mut Json, key: &str)
    ensures
        final(page_json)@ == text_pushes(content_div@.children, old(page_json)@, key@),
        dju::ss_top(old(page_json)@) is Obj ==> dju::ss_top(final(page_json)@) is Obj,
        pz_kept(old(page_json)@, final(page_json)@),
        dju::key_in(old(page_json)@, key@) ==> (tree_kept(old(page_json)@, final(page_json)@) && dju::key_in(final(page_json)@, key@)),
{
    proof {
        dom::lemma_children_view(*content_div);
    }
    let ghost cs = content_div@.children;
    let ghost j0 = page_json@;
    let mut i: usize = 0;
    while i < content_div.children.len()
        invariant
            i <= content_div.children.len(),
            cs == dom::views(content_div.children@),
            page_json@ == text_pushes(cs.subrange(0, i as int), j0, key@),
            dju::ss_top(j0) is Obj ==> dju::ss_top(page_json@) is Obj,
            pz_kept(j0, page_json@),
            dju::key_in(j0, key@) ==> (tree_kept(j0, page_json@) && dju::key_in(page_json@, key@)),
        decreases content_div.children.len() - i,
    {
        let child = &content_div.children[i];
        assert(cs[i as int] == child@);
        assert(cs.subrange(0, i + 1).drop_last() =~= cs.subrange(0, i as int));
        match &child.data {
            NodeKind::Text { contents } => {
                ss_push_content(page_json, key, content_json("text", contents.as_str()));
            },
            _ => {},
        }
        i = i + 1;
    }
    assert(cs.subrange(0, i as int) =~= cs);
}

// ---------------------------------------------------------------------------
// Subsections of the old style
// ---------------------------------------------------------------------------

/// The value of the first `name` attribute of the first of the links that
/// has one.
pub open spec fn first_named(als: Seq<NodeV>) -> Option<Seq<char>>
    decreases als.len(),
{
    if als.len() == 0 {
        None
    } else {
        let rest = als.subrange(1, als.len() as int);
        match als[0].data {
            DataV::Element { attrs, .. } => if pdu::attr_pos(attrs, "name"@) >= 0 {
                Some(attrs[pdu::attr_pos(attrs, "name"@)].value)
            } else {
                first_named(rest)
            },
            _ => first_named(rest),
        }
    }
}

/// The href of an old-style subsection block: `#` and the name of its first
/// named anchor `<a name="...">`; an empty text when there is none.
pub open spec fn subsection_href_2_spec(div: NodeV) -> Seq<char> {
    match first_named(matches_in(div.children, a_ptn(), true)) {
        Some(v) => "#"@ + v,
        None => Seq::empty(),
    }
}

/// The title of an old-style subsection block: the first line that is not
/// empty of the first child of its first `<div class="subsectionTitle">`,
/// `no title` when there is none.
pub open spec fn title2_spec(div: NodeV) -> Seq<char> {
    let tl = matches_in(div.children, ss_title_ptn(), true);
    if tl.len() > 0 && tl[0].children.len() > 0 {
        match tl[0].children[0].data {
            DataV::Text { contents } => {
                let ne = text::nonempty_only(text::lines_spec(contents));
                if ne.len() > 0 {
                    ne[0]
                } else {
                    "no title"@
                }
            },
            _ => "no title"@,
        }
    } else {
        "no title"@
    }
}

/// The data with a subsection for the href: unchanged when there is one,
/// otherwise a new one under the top subsection titled from the block.
pub open spec fn ss_prepare2_spec(j: JVal, div: NodeV, href: Seq<char>) -> JVal {
    if ss_id_href_spec(j, href) is Some {
        j
    } else {
        let (key, j1) = ss_json_new_spec(j, href, 0);
        ss_rec_set(j1, key, "title"@, jvalue::str_val(title2_spec(div)))
    }
}

/// The texts among the nodes, in order.
pub open spec fn texts_of(cs: Seq<NodeV>) -> Seq<Seq<char>>
    decreases cs.len(),
{
    if cs.len() == 0 {
        Seq::empty()
    } else {
        match cs.last().data {
            DataV::Text { contents } => texts_of(cs.drop_last()).push(contents),
            _ => texts_of(cs.drop_last()),
        }
    }
}

/// The content item of a child of an old-style subsection body: a
/// `<textarea>` is a script of its texts joined by line breaks, another
/// element HTML, a text its lines that are not empty.
pub open spec fn content_item(c: NodeV) -> Option<JVal> {
    match c.data {
        DataV::Element { name, .. } => Some(
            if name.local == "textarea"@ {
                content_obj("script"@, text::join_spec(texts_of(c.children), "\n"@))
            } else {
                content_obj("html"@, dom::html_serialize_spec(c.children))
            },
        ),
        DataV::Text { contents } => Some(
            content_obj(
                "text"@,
                text::join_spec(text::nonempty_only(text::lines_spec(contents)), "\n"@),
            ),
        ),
        _ => None,
    }
}

/// The content items of the children in order.
pub open spec fn content_items(cs: Seq<NodeV>) -> Seq<JVal>
    decreases cs.len(),
{
    if cs.len() == 0 {
        Seq::empty()
    } else {
        match content_item(cs.last()) {
            Some(v) => content_items(cs.drop_last()).push(v),
            None => content_items(cs.drop_last()),
        }
    }
}

/// The data after reading an old-style subsection block: when it has a
/// named anchor and a `<div class="subsectionBody">`, the subsection for
/// the href (made when needed) gets the content items of the first body.
pub open spec fn subsection_set2_spec(j: JVal, div: NodeV) -> JVal {
    let href = subsection_href_2_spec(div);
    let bl = matches_in(div.children, ss_body_ptn(), true);
    if href.len() == 0 || bl.len() == 0 {
        j
    } else {
        let j1 = ss_prepare2_spec(j, div, href);
        ss_rec_set(
            j1,
            ss_id_href_spec(j1, href)->Some_0,
            "content"@,
            JVal::Arr(content_items(bl[0].children)),
        )
    }
}

/// The data after reading the old-style subsection blocks in order.
pub open spec fn ss2_divs_spec(divs: Seq<NodeV>, j: JVal) -> JVal
    decreases divs.len(),
{
    if divs.len() == 0 {
        j
    } else {
        subsection_set2_spec(ss2_divs_spec(divs.drop_last(), j), divs.last())
    }
}

/// The data after reading the old-style subsection blocks of the page.
pub open spec fn subsection_json2_spec(n: NodeV, j: JVal) -> JVal {
    ss2_divs_spec(matches_in(n.children, ss_div_ptn(), true), j)
}

fn subsection_json_set_2(node: &DomNode, page_json: &mut Json)
    requires
        page_tree_ok(node@.children),
    ensures
        final(page_json)@ == subsection_json2_spec(node@, old(page_json)@),
        dju::ss_top(old(page_json)@) is Obj ==> dju::ss_top(final(page_json)@) is Obj,
        pz_kept(old(page_json)@, final(page_json)@),
        tree_kept(old(page_json)@, final(page_json)@),
{
    let subsection_div_ptn = node_element("div", &vec![("class", "subsection")]);
    assert(subsection_div_ptn@.data->Element_attrs =~= seq![attr_spec("class"@, "subsection"@)]);
    let subsection_div_list = child_match_list(node, &subsection_div_ptn, true);
    let ghost divs = dom::views(subsection_div_list@);
    let ghost j0 = page_json@;
    let mut i: usize = 0;
    while i < subsection_div_list.len()
        invariant
            i <= subsection_div_list.len(),
            divs == dom::views(subsection_div_list@),
            divs == matches_in(node@.children, ss_div_ptn(), true),
            page_tree_ok(node@.children),
            page_json@ == ss2_divs_spec(divs.subrange(0, i as int), j0),
            dju::ss_top(j0) is Obj ==> dju::ss_top(page_json@) is Obj,
            pz_kept(j0, page_json@),
            tree_kept(j0, page_json@),
        decreases subsection_div_list.len() - i,
    {
        let div = &subsection_div_list[i];
        assert(divs[i as int] == div@);
        assert(divs.subrange(0, i + 1).drop_last() =~= divs.subrange(0, i as int));
        proof {
            lemma_match_ok(node@.children, ss_div_ptn(), true, i as int);
        }
        subsection_set2(page_json, div);
        i = i + 1;
    }
    assert(divs.subrange(0, i as int) =~= divs);
}

fn subsection_set2(page_json: &mut Json, subsection_div: &DomNode)
    requires
        page_tree_ok(subsection_div@.children),
    ensures
        final(page_json)@ == subsection_set2_spec(old(page_json)@, subsection_div@),
        dju::ss_top(old(page_json)@) is Obj ==> dju::ss_top(final(page_json)@) is Obj,
        pz_kept(old(page_json)@, final(page_json)@),
        tree_kept(old(page_json)@, final(page_json)@),
{
    let href = subsection_href_2(subsection_div);
    if href.as_str().unicode_len() == 0 {
        return;
    }
    let body_ptn = node_element("div", &vec![("class", "subsectionBody")]);
    assert(body_ptn@.data->Element_attrs =~= seq![attr_spec("class"@, "subsectionBody"@)]);
    let div_body_list = child_match_list(subsection_div, &body_ptn, true);
    if div_body_list.len() == 0 {
        return;
    }
    proof {
        lemma_match_ok(subsection_div@.children, ss_body_ptn(), true, 0);
    }
    ss_json_prepare2(page_json, subsection_div, href.as_str());
    proof {
        dju::lemma_found_key_in(page_json@, href@);
    }
    let key = match dju::ss_json_href(page_json, href.as_str()) {
        Some(k) => k,
        None => String::new(),
    };
    assert(dom::views(div_body_list@)[0] == div_body_list@[0]@);
    let items = content_set2(&div_body_list[0]);
    proof {
        lemma_literals();
    }
    ss_set_field(page_json, key.as_str(), "content", items);
}

fn subsection_href_2(subsection_div: &DomNode) -> (r: String)
    ensures
        r@ == subsection_href_2_spec(subsection_div@),
{
    let a_href_ptn = node_element("a", &vec![]);
    assert(a_href_ptn@.data->Element_attrs =~= Seq::empty());
    let a_list = child_match_list(subsection_div, &a_href_ptn, true);
    let ghost als = dom::views(a_list@);
    let name = String::from_str("name");
    let mut i: usize = 0;
    assert(als.subrange(0, als.len() as int) =~= als);
    while i < a_list.len()
        invariant
            i <= a_list.len(),
            als == dom::views(a_list@),
            als == matches_in(subsection_div@.children, a_ptn(), true),
            name@ == "name"@,
            first_named(als) == first_named(als.subrange(i as int, als.len() as int)),
        decreases a_list.len() - i,
    {
        let a_ele = &a_list[i];
        assert(als[i as int] == a_ele@);
        let ghost rest = als.subrange(i as int, als.len() as int);
        assert(rest[0] == a_ele@);
        assert(rest.subrange(1, rest.len() as int) =~= als.subrange(i + 1, als.len() as int));
        match &a_ele.data {
            NodeKind::Element { attrs, .. } => {
                match pdu::attr_position(attrs, &name) {
                    Some(p) => {
                        assert(dom::attrs_view(attrs@)[p as int] == attrs@[p as int]@);
                        proof {
                            reveal_strlit("#");
                        }
                        return text::concat("#", attrs[p].value.as_str());
                    },
                    None => {},
                }
            },
            _ => {},
        }
        i = i + 1;
    }
    assert(als.subrange(i as int, als.len() as int) =~= Seq::<NodeV>::empty());
    String::new()
}

fn title2(subsection_div: &DomNode) -> (r: String)
    ensures
        r@ == title2_spec(subsection_div@),
{
    let title_ptn = node_element("div", &vec![("class", "subsectionTitle")]);
    assert(title_ptn@.data->Element_attrs =~= seq![attr_spec("class"@, "subsectionTitle"@)]);
    let div_title_list = child_match_list(subsection_div, &title_ptn, true);
    if 0 < div_title_list.len() {
        let t = &div_title_list[0];
        assert(dom::views(div_title_list@)[0] == t@);
        proof {
            dom::lemma_children_view(*t);
        }
        if 0 < t.children.len() {
            assert(t@.children[0] == t.children@[0]@);
            match &t.children[0].data {
                NodeKind::Text { contents } => {
                    let lines = text::split_lines(contents.as_str());
                    let ne = text::keep_nonempty(&lines);
                    if ne.len() > 0 {
                        assert(ne@.map_values(|x: String| x@)[0] == ne@[0]@);
                        return ne[0].clone();
                    }
                },
                _ => {},
            }
        }
    }
    String::from_str("no title")
}

fn ss_json_prepare2(page_json: &mut Json, subsection_div: &DomNode, href: &str)
    ensures
        final(page_json)@ == ss_prepare2_spec(old(page_json)@, subsection_div@, href@),
        ss_id_href_spec(final(page_json)@, href@) is Some,
        dju::ss_top(old(page_json)@) is Obj ==> dju::ss_top(final(page_json)@) is Obj,
        pz_kept(old(page_json)@, final(page_json)@),
        tree_kept(old(page_json)@, final(page_json)@),
{
    if let Some(_) = dju::ss_json_href(page_json, href) {
        return;
    }
    let ghost j0 = page_json@;
    let key = dju::ss_json_new(page_json, href, 0);
    let title = title2(subsection_div);
    proof {
        lemma_top_after_new(j0, href@, 0);
        if dju::parents_zero(j0) {
            dju::lemma_pz_new(j0, href@);
        }
        dju::lemma_tree_new(j0, href@, href@);
        lemma_literals();
        lemma_prepare_finds(j0, jvalue::str_val(title@), href@);
    }
    ss_set_field(page_json, key.as_str(), "title", Json::from_str(title.as_str()));
}

fn content_set2(div_body: &DomNode) -> (r: Json)
    requires
        page_tree_ok(div_body@.children),
    ensures
        r@ == JVal::Arr(content_items(div_body@.children)),
{
    proof {
        dom::lemma_children_view(*div_body);
        dom::lemma_tree_all_in(div_body@.children, dom::not_doc());
    }
    let ghost cs = div_body@.children;
    let mut content_json_vec = Json::new_array();
    let mut i: usize = 0;
    assert(content_items(cs.subrange(0, 0)) =~= Seq::<JVal>::empty());
    while i < div_body.children.len()
        invariant
            i <= div_body.children.len(),
            cs == dom::views(div_body.children@),
            forall|k: int| 0 <= k < cs.len() ==> dom::tree_all(#[trigger] cs[k], dom::not_doc()),
            content_json_vec@ == JVal::Arr(content_items(cs.subrange(0, i as int))),
        decreases div_body.children.len() - i,
    {
        let child = &div_body.children[i];
        assert(cs[i as int] == child@);
        assert(cs.subrange(0, i + 1).drop_last() =~= cs.subrange(0, i as int));
        proof {
            assert(dom::tree_all(child@, dom::not_doc()));
            dom::lemma_children_view(*child);
        }
        match &child.data {
            NodeKind::Element { name, .. } => {
                let item = content_element_set(&name.local, child);
                let _r = content_json_vec.push(item);
            },
            NodeKind::Text { contents } => {
                let item = content_text_set2(contents.as_str());
                let _r = content_json_vec.push(item);
            },
            _ => {},
        }
        i = i + 1;
    }
    assert(cs.subrange(0, i as int) =~= cs);
    content_json_vec
}

fn content_element_set(name: &String, child: &DomNode) -> (r: Json)
    requires
        child@.data matches DataV::Element { name: n, .. } && n.local == name@,
        dom::doc_free_in(child@.children),
    ensures
        content_item(child@) == Some(r@),
{
    proof {
        reveal_strlit("\n");
    }
    if text::str_eq(name.as_str(), "textarea") {
        proof {
            dom::lemma_children_view(*child);
        }
        let ghost cs = child@.children;
        let mut text_content: Vec<String> = Vec::new();
        let mut i: usize = 0;
        assert(text_content@.map_values(|x: String| x@) =~= texts_of(cs.subrange(0, 0)));
        while i < child.children.len()
            invariant
                i <= child.children.len(),
                cs == dom::views(child.children@),
                text_content@.map_values(|x: String| x@) == texts_of(cs.subrange(0, i as int)),
            decreases child.children.len() - i,
        {
            let c = &child.children[i];
            assert(cs[i as int] == c@);
            assert(cs.subrange(0, i + 1).drop_last() =~= cs.subrange(0, i as int));
            match &c.data {
                NodeKind::Text { contents } => {
                    let ghost before = text_content@.map_values(|x: String| x@);
                    text_content.push(contents.clone());
                    assert(text_content@.map_values(|x: String| x@) =~= before.push(contents@));
                },
                _ => {},
            }
            i = i + 1;
        }
        assert(cs.subrange(0, i as int) =~= cs);
        let joined = text::join(&text_content, "\n");
        content_json("script", joined.as_str())
    } else {
        let html = content_html_parse(child);
        content_json("html", html.as_str())
    }
}

fn content_text_set2(contents: &str) -> (r: Json)
    ensures
        r@ == content_obj(
            "text"@,
            text::join_spec(text::nonempty_only(text::lines_spec(contents@)), "\n"@),
        ),
{
    let lines = text::split_lines(contents);
    let text_vec = text::keep_nonempty(&lines);
    let joined = text::join(&text_vec, "\n");
    content_json("text", joined.as_str())
}

// ---------------------------------------------------------------------------
// The whole page
// ---------------------------------------------------------------------------

/// The page data read out of a page: a blank page data with the revision,
/// navigation, index list and subsections of the page, and a sample
/// subsection when the top subsection has no children.
pub open spec fn dom_to_json_spec(n: NodeV) -> JVal {
    dju::sample_set_spec(
        subsection_json2_spec(
            n,
            subsection_json_spec(
                n,
                index_json_spec(n, navi_json_spec(n, content_rev_spec(n, pju::page_json_blank_spec()))),
            ),
        ),
    )
}

proof fn lemma_blank_top()
    ensures
        dju::ss_top(pju::page_json_blank_spec()) is Obj,
        dju::parents_zero(pju::page_json_blank_spec()),
{
    reveal_strlit("system");
    reveal_strlit("data");
    reveal_strlit("page");
    reveal_strlit("navi");
    reveal_strlit("subsection");
    reveal_strlit("id");
    reveal_strlit("0");
    let b = pju::page_json_blank_spec();
    let e0 = b->Obj_0;
    assert("system"@ != "data"@) by {
        assert("system"@.len() != "data"@.len());
    }
    jvalue::lemma_key_pos_first(e0, "data"@, 1);
    let d = jvalue::get(b, "data"@);
    let e1 = d->Obj_0;
    assert("page"@ != "subsection"@) by {
        assert("page"@.len() != "subsection"@.len());
    }
    assert("navi"@ != "subsection"@) by {
        assert("navi"@.len() != "subsection"@.len());
    }
    jvalue::lemma_key_pos_first(e1, "subsection"@, 2);
    let ss = jvalue::get(d, "subsection"@);
    let e2 = ss->Obj_0;
    assert("id"@ != "data"@) by {
        assert("id"@.len() != "data"@.len());
    }
    jvalue::lemma_key_pos_first(e2, "data"@, 1);
    let sd = jvalue::get(ss, "data"@);
    jvalue::lemma_key_pos_first(sd->Obj_0, "0"@, 0);
    let rec = sd->Obj_0[0].1;
    reveal_strlit("parent");
    jvalue::lemma_key_pos_first(rec->Obj_0, "parent"@, 0);
    assert(dju::parent_ok(rec));
    assert forall|i: int| 0 <= i < sd->Obj_0.len() implies dju::parent_ok(#[trigger] sd->Obj_0[i].1) by {}
}

/// Reads the page data out of a page written in HTML.  The subsections read
/// form a flat tree: no subsection record names a parent other than the top
/// subsection (0), and the top record's `child` lists every other record
/// exactly once (`tree_ok`, `law_top_lists_each_subsection`), unless the
/// page holds `u32::MAX` subsections or more, so that the ids went round.
/// The top record then has a child (a sample one, if the page had none),
/// unless the top record itself carries the href `#sample`.
pub fn dom_to_json(node: &DomNode) -> (r: Json)
    requires
        page_tree_ok(node@.children),
    ensures
        r@ == dom_to_json_spec(node@),
        dju::parents_zero(r@),
        dju::tree_ok(r@),
        dju::crowded(r@) || jvalue::len(jvalue::get(dju::ss_top(r@), "child"@)) > 0 || dju::ss_matches(
            dju::ss_top(r@),
            "#sample"@,
        ),
{
    let mut page_json = pju::page_json_blank();
    proof {
        lemma_blank_top();
        dju::lemma_tree_blank();
    }
    content_rev_set(node, &mut page_json);
    navi_json_set(node, &mut page_json);
    index_json_set(node, &mut page_json);
    subsection_json_set(node, &mut page_json);
    subsection_json_set_2(node, &mut page_json);
    proof {
        dju::lemma_pz_sample(page_json@);
        dju::lemma_tree_sample(page_json@);
        if dju::tree_listed(page_json@) {
            dju::lemma_sample_child(page_json@);
        }
    }
    dju::subsection_json_sample_set(&mut page_json);
    page_json
}

} // verus!
