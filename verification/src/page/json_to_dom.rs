//! Writing page data out as a page: the head that loads the editor and
//! the body that carries the data as text.
use vstd::prelude::*;
use crate::jvalue::{self, Json, JVal};
use super::dom::{self, DataV, DomNode, NodeKind, NodeV};
use super::page_dom::{self, PageDom};
use super::page_dom_utility::{
    self as pdu, attr, attr_spec, node_element, node_element_spec, node_text, node_text_spec, EditV,
};

verus! {

/// The style sheet written into every page, so that a page reads well
/// without the shared style file.
pub const STYLE_CSS: &'static str = "
      .invisible { display: none; }

      .subsection {
\t  margin-bottom: 20px;
      }
      .subsectionTitle {
\t  font-weight: bold;
\t  font-size: 1.5em;
      }
      .subsectionContent {
\t  margin-left: 30px;
      }
      .subsectionSub {
\t  margin-left: 30px;
      }
      .inline0 {
\t  display: inline;
      }
      .script {
\t  border: solid 1px black;
\t  _width: 400px;
\t  background: #e6e6fa;
\t  padding: 10px;
\t  resize: both;
\t  overflow: hidden;
\t  margin-bottom: 3px;
      }
";

/// The page title in the data, `data.page.title`, or an empty text when it
/// is no string.
pub open spec fn title_of(pj: JVal) -> Seq<char> {
    match jvalue::as_str(jvalue::get3(pj, "data"@, "page"@, "title"@)) {
        Some(s) => s,
        None => Seq::empty(),
    }
}

/// An element with the given children.
pub open spec fn with_children(n: NodeV, cs: Seq<NodeV>) -> NodeV {
    NodeV { data: n.data, children: cs }
}

/// `<title>` with the page title.
pub open spec fn title_node_spec(pj: JVal) -> NodeV {
    with_children(node_element_spec("title"@, Seq::empty()), seq![node_text_spec(title_of(pj))])
}

/// `<style type="text/css">` with the style sheet.
pub open spec fn style_node_spec() -> NodeV {
    with_children(
        node_element_spec("style"@, seq![attr_spec("type"@, "text/css"@)]),
        seq![node_text_spec(STYLE_CSS@)],
    )
}

/// What goes into `<head>`: title, charset, the editor script, the style
/// sheet and the link to the shared style file.
pub open spec fn head_edit(pj: JVal) -> EditV {
    EditV {
        attrs: Seq::empty(),
        children: seq![
            title_node_spec(pj),
            node_element_spec("meta"@, seq![attr_spec("charset"@, "UTF-8"@)]),
            node_element_spec("script"@, seq![attr_spec("src"@, "/wc.js"@)]),
            style_node_spec(),
            node_element_spec(
                "link"@,
                seq![attr_spec("rel"@, "stylesheet"@), attr_spec("href"@, "/wc.css"@)],
            ),
        ],
    }
}

/// A node with no children that is no `<body>` element has no `<body>` in it.
proof fn lemma_leaf_no_body(n: NodeV)
    requires
        n.children.len() == 0,
        !pdu::element_match_spec(n, page_dom::body_ptn()),
    ensures
        !pdu::has_match_at(n, page_dom::body_ptn()),
{
    assert(pdu::first_in(n.children, page_dom::body_ptn()) == -1);
}

/// The filled `<head>` holds no `<body>`.
proof fn lemma_head_no_body(pj: JVal)
    ensures
        !pdu::has_match_at(
            pdu::apply_edit(dom::empty_document().children[0].children[0], head_edit(pj)),
            page_dom::body_ptn(),
        ),
{
    reveal_strlit("body");
    reveal_strlit("title");
    reveal_strlit("meta");
    reveal_strlit("script");
    reveal_strlit("style");
    reveal_strlit("link");
    reveal_strlit("head");
    let b = page_dom::body_ptn();
    let cs = head_edit(pj).children;
    assert("title"@ != "body"@) by {
        assert("title"@.len() != "body"@.len());
    }
    assert("meta"@ != "body"@) by {
        assert("meta"@[0] != "body"@[0]);
    }
    assert("script"@ != "body"@) by {
        assert("script"@.len() != "body"@.len());
    }
    assert("style"@ != "body"@) by {
        assert("style"@.len() != "body"@.len());
    }
    assert("link"@ != "body"@) by {
        assert("link"@[0] != "body"@[0]);
    }
    assert("head"@ != "body"@) by {
        assert("head"@[0] != "body"@[0]);
    }
    lemma_leaf_no_body(node_text_spec(title_of(pj)));
    lemma_first_in_pair(node_text_spec(title_of(pj)), node_text_spec(title_of(pj)), b);
    lemma_leaf_no_body(node_text_spec(STYLE_CSS@));
    lemma_first_in_pair(node_text_spec(STYLE_CSS@), node_text_spec(STYLE_CSS@), b);
    assert(!pdu::has_match_at(cs[0], b));
    lemma_leaf_no_body(cs[1]);
    lemma_leaf_no_body(cs[2]);
    assert(!pdu::has_match_at(cs[3], b));
    lemma_leaf_no_body(cs[4]);
    let hd = pdu::apply_edit(dom::empty_document().children[0].children[0], head_edit(pj));
    assert(hd.children =~= cs);
    lemma_first_in_none(hd.children, b);
}

/// A page written from data carries its title: the `<head>` of the page
/// (the first child of its `<html>`) holds, first, a `<title>` element
/// whose only child is the text of `data.page.title`, whenever that is a
/// text.
pub proof fn law_written_page_has_title(pj: JVal, t: Seq<char>)
    ensures
        jvalue::as_str(jvalue::get3(pj, "data"@, "page"@, "title"@)) == Some(t) ==> ({
            let head = json_to_dom_spec(pj).children[0].children[0];
            let first = head.children[0];
            &&& pdu::element_match_spec(head, page_dom::head_ptn())
            &&& first.data == node_element_spec("title"@, Seq::empty()).data
            &&& first.children.len() == 1
            &&& first.children[0] == node_text_spec(t)
        }),
{
    lemma_names_differ();
    lemma_edited_has_body(pj);
    lemma_head_no_body(pj);
    lemma_empty_has_head();
    let d0 = dom::empty_document();
    let html = d0.children[0];
    let hd = pdu::apply_edit(html.children[0], head_edit(pj));
    let bd = html.children[1];
    let b = page_dom::body_ptn();
    let hf = head_filled(pj);
    let html1 = hf.children[0];
    assert(html1.children =~= seq![hd, bd]);
    assert(pdu::element_match_spec(bd, b));
    lemma_first_in_pair(hd, bd, b);
    lemma_first_in_pair(html1, html1, b);
    assert(!pdu::element_match_spec(html1, b));
    let e1 = pdu::edit_in(html1.children, b, body_edit(pj));
    assert(e1 == seq![hd, bd].update(1, pdu::edit_at(bd, b, body_edit(pj))));
    assert(e1[0] == hd);
    let top = pdu::edit_in(hf.children, b, body_edit(pj));
    assert(hf.children =~= seq![html1]);
    assert(top[0] == pdu::edit_at(html1, b, body_edit(pj)));
    assert(json_to_dom_spec(pj).children[0].children[0] == hd);
    assert(hd.children =~= head_edit(pj).children);
    assert(pdu::element_match_spec(hd, page_dom::head_ptn()));
}

/// What goes into `<body>`: the `onload` handler, and the span holding the
/// JSON text of the data.
pub open spec fn body_edit(pj: JVal) -> EditV {
    EditV {
        attrs: seq![attr_spec("onload"@, "bodyOnload()"@)],
        children: seq![
            with_children(
                page_dom::span_page_json_spec(),
                seq![node_text_spec(jvalue::json_text(pj))],
            ),
        ],
    }
}

/// A document after editing the first match of the pattern.
pub open spec fn edited(d: NodeV, ptn: NodeV, e: EditV) -> NodeV {
    NodeV { data: d.data, children: pdu::edit_in(d.children, ptn, e) }
}

/// The page made from page data: the document html5ever makes of an empty
/// text, with the head and body parts added to its `<head>` and `<body>`.
pub open spec fn json_to_dom_spec(pj: JVal) -> NodeV {
    let d1 = edited(dom::empty_document(), page_dom::head_ptn(), head_edit(pj));
    edited(d1, page_dom::body_ptn(), body_edit(pj))
}

/// The page for the page data.
pub fn json_to_dom(page_json: &Json) -> (r: PageDom)
    ensures
        r.dom@ == json_to_dom_spec(page_json@),
        dom::doc_free_in(r.dom@.children),
{
    proof {
        reveal_strlit("");
        assert(""@ =~= Seq::<char>::empty());
    }
    let mut page_dom = PageDom::new("");
    proof {
        lemma_empty_has_head();
    }
    head_set(&mut page_dom, page_json);
    proof {
        lemma_edited_has_body(page_json@);
    }
    body_set(&mut page_dom, page_json);
    page_dom
}

/// The names of the elements that a page is made of differ.
proof fn lemma_names_differ()
    ensures
        "html"@ != "head"@,
        "html"@ != "body"@,
        "head"@ != "body"@,
        "span"@ != "head"@,
        "span"@ != "body"@,
        "span"@ != "html"@,
{
    reveal_strlit("html");
    reveal_strlit("head");
    reveal_strlit("body");
    reveal_strlit("span");
    assert("html"@[1] != "head"@[1]);
    assert("html"@[0] != "body"@[0]);
    assert("head"@[0] != "body"@[0]);
    assert("span"@[0] != "head"@[0]);
    assert("span"@[0] != "body"@[0]);
    assert("span"@[0] != "html"@[0]);
}

/// Where the first match is among one or two trees.
proof fn lemma_first_in_pair(a: NodeV, b: NodeV, ptn: NodeV)
    ensures
        pdu::first_in(seq![a], ptn) == (if pdu::has_match_at(a, ptn) { 0int } else { -1int }),
        pdu::first_in(seq![a, b], ptn) == (if pdu::has_match_at(a, ptn) {
            0int
        } else if pdu::has_match_at(b, ptn) {
            1int
        } else {
            -1int
        }),
{
    assert(pdu::first_in(Seq::<NodeV>::empty(), ptn) == -1);
    assert(seq![a].subrange(0, 0) =~= Seq::<NodeV>::empty());
    assert(pdu::first_in(seq![a], ptn) == (if pdu::has_match_at(a, ptn) { 0int } else { -1int }));
    assert(seq![a, b].subrange(0, 1) =~= seq![a]);
    assert(seq![a, b][1] == b);
}

/// The empty document has a `<head>`.
proof fn lemma_empty_has_head()
    ensures
        pdu::first_in(dom::empty_document().children, page_dom::head_ptn()) == 0,
        pdu::first_in(dom::empty_document().children[0].children, page_dom::head_ptn()) == 0,
{
    lemma_names_differ();
    let html = dom::empty_document().children[0];
    let head = html.children[0];
    assert(pdu::element_match_spec(head, page_dom::head_ptn()));
    lemma_first_in_pair(head, html.children[1], page_dom::head_ptn());
    assert(html.children =~= seq![head, html.children[1]]);
    assert(pdu::has_match_at(html, page_dom::head_ptn()));
    lemma_first_in_pair(html, html, page_dom::head_ptn());
    assert(dom::empty_document().children =~= seq![html]);
}

/// The page after its head is filled: the `<html>` element holding the
/// filled `<head>` and the empty `<body>`.
pub open spec fn head_filled(pj: JVal) -> NodeV {
    let html = dom::empty_document().children[0];
    NodeV {
        data: DataV::Document,
        children: seq![
            NodeV {
                data: html.data,
                children: seq![pdu::apply_edit(html.children[0], head_edit(pj)), html.children[1]],
            },
        ],
    }
}

/// Filling the head of the empty document gives `head_filled`, which still
/// has a `<body>`.
proof fn lemma_edited_has_body(pj: JVal)
    ensures
        edited(dom::empty_document(), page_dom::head_ptn(), head_edit(pj)) == head_filled(pj),
        pdu::first_in(head_filled(pj).children, page_dom::body_ptn()) >= 0,
{
    lemma_names_differ();
    lemma_empty_has_head();
    let d0 = dom::empty_document();
    let html = d0.children[0];
    let hd = pdu::apply_edit(html.children[0], head_edit(pj));
    let ptn = page_dom::body_ptn();
    let cs = seq![hd, html.children[1]];
    assert(pdu::edit_in(html.children, page_dom::head_ptn(), head_edit(pj)) =~= cs);
    let html1 = NodeV { data: html.data, children: cs };
    assert(!pdu::element_match_spec(html, page_dom::head_ptn()));
    assert(pdu::edit_in(d0.children, page_dom::head_ptn(), head_edit(pj)) =~= seq![html1]);
    assert(pdu::element_match_spec(cs[1], ptn));
    lemma_first_in_pair(hd, cs[1], ptn);
    assert(pdu::has_match_at(html1, ptn));
    lemma_first_in_pair(html1, html1, ptn);
}

/// No tree among `cs` matches, nor has a descendant that does.
proof fn lemma_first_in_none(cs: Seq<NodeV>, ptn: NodeV)
    requires
        forall|i: int| 0 <= i < cs.len() ==> !pdu::has_match_at(#[trigger] cs[i], ptn),
    ensures
        pdu::first_in(cs, ptn) == -1,
    decreases cs.len(),
{
    if cs.len() > 0 {
        let d = cs.subrange(0, cs.len() - 1);
        assert forall|i: int| 0 <= i < d.len() implies !pdu::has_match_at(#[trigger] d[i], ptn) by {
            assert(d[i] == cs[i]);
        }
        lemma_first_in_none(d, ptn);
    }
}

/// No node of the trees among `cs` matches.
proof fn lemma_matches_in_none(cs: Seq<NodeV>, ptn: NodeV)
    requires
        forall|i: int| 0 <= i < cs.len() ==> #[trigger] pdu::matches_at(cs[i], ptn, true) == Seq::<NodeV>::empty(),
    ensures
        pdu::matches_in(cs, ptn, true) == Seq::<NodeV>::empty(),
    decreases cs.len(),
{
    if cs.len() > 0 {
        let d = cs.subrange(0, cs.len() - 1);
        assert forall|i: int| 0 <= i < d.len() implies #[trigger] pdu::matches_at(d[i], ptn, true) == Seq::<NodeV>::empty() by {
            assert(d[i] == cs[i]);
        }
        lemma_matches_in_none(d, ptn);
        assert(pdu::matches_at(cs[cs.len() - 1], ptn, true) == Seq::<NodeV>::empty());
        assert(pdu::matches_in(cs, ptn, true) =~= Seq::<NodeV>::empty());
    }
}

/// A node that does not match, whose children (if any) are texts, neither
/// matches nor holds a match.
proof fn lemma_no_match_below(c: NodeV, ptn: NodeV)
    requires
        ptn.data is Element,
        !pdu::element_match_spec(c, ptn),
        forall|i: int| 0 <= i < c.children.len() ==> (#[trigger] c.children[i]).data is Text
            && c.children[i].children.len() == 0,
    ensures
        !pdu::has_match_at(c, ptn),
        pdu::matches_at(c, ptn, true) == Seq::<NodeV>::empty(),
{
    assert forall|i: int| 0 <= i < c.children.len() implies !pdu::has_match_at(#[trigger] c.children[i], ptn) by {
        let t = c.children[i];
        lemma_first_in_none(t.children, ptn);
    }
    lemma_first_in_none(c.children, ptn);
    assert forall|i: int| 0 <= i < c.children.len() implies #[trigger] pdu::matches_at(c.children[i], ptn, true)
        == Seq::<NodeV>::empty() by {
        let t = c.children[i];
        lemma_matches_in_none(t.children, ptn);
        assert(pdu::matches_at(t, ptn, true) =~= Seq::<NodeV>::empty());
    }
    lemma_matches_in_none(c.children, ptn);
    assert(pdu::matches_at(c, ptn, true) =~= Seq::<NodeV>::empty());
}

/// Neither `<body>` nor the page-data span occurs in the filled `<head>`.
proof fn lemma_head_parts(pj: JVal, ptn: NodeV)
    requires
        ptn == page_dom::body_ptn() || ptn == page_dom::span_page_json_spec(),
    ensures
        forall|i: int| 0 <= i < head_edit(pj).children.len() ==> !pdu::has_match_at(
            #[trigger] head_edit(pj).children[i],
            ptn,
        ) && pdu::matches_at(head_edit(pj).children[i], ptn, true) == Seq::<NodeV>::empty(),
{
    reveal_strlit("title");
    reveal_strlit("meta");
    reveal_strlit("script");
    reveal_strlit("style");
    reveal_strlit("link");
    reveal_strlit("body");
    reveal_strlit("span");
    let cs = head_edit(pj).children;
    assert forall|i: int| 0 <= i < cs.len() implies !pdu::has_match_at(#[trigger] cs[i], ptn)
        && pdu::matches_at(cs[i], ptn, true) == Seq::<NodeV>::empty() by {
        let l = cs[i].data->Element_name.local;
        assert(l[0] != ptn.data->Element_name.local[0] || l.len() != ptn.data->Element_name.local.len());
        assert(!pdu::element_match_spec(cs[i], ptn));
        lemma_no_match_below(cs[i], ptn);
    }
}

/// The page made from page data carries the data: the text held in its
/// page-data span (`<span id="page_json_str">`), where reading a page's
/// data looks for it, is the JSON text of the data.
pub proof fn law_page_carries_data(pj: JVal)
    ensures
        page_dom::span_page_json_str_spec(json_to_dom_spec(pj)) == Some(jvalue::json_text(pj)),
{
    lemma_names_differ();
    lemma_edited_has_body(pj);
    let d1 = head_filled(pj);
    let html1 = d1.children[0];
    let hd = html1.children[0];
    let bd = html1.children[1];
    let bp = page_dom::body_ptn();
    let sp = page_dom::span_page_json_spec();
    lemma_head_parts(pj, bp);
    lemma_head_parts(pj, sp);
    lemma_first_in_none(hd.children, bp);
    assert(!pdu::element_match_spec(hd, bp));
    assert(!pdu::has_match_at(hd, bp));
    assert(pdu::element_match_spec(bd, bp));
    lemma_first_in_pair(hd, bd, bp);
    assert(pdu::has_match_at(html1, bp));
    lemma_first_in_pair(html1, html1, bp);
    assert(!pdu::element_match_spec(html1, bp));
    let bd2 = pdu::apply_edit(bd, body_edit(pj));
    let html2 = NodeV { data: html1.data, children: seq![hd, bd2] };
    assert(pdu::edit_in(html1.children, bp, body_edit(pj)) =~= html2.children);
    assert(pdu::edit_in(d1.children, bp, body_edit(pj)) =~= seq![html2]);
    let d2 = json_to_dom_spec(pj);
    assert(d2.children =~= seq![html2]);
    let span = bd2.children[0];
    assert(bd2.children =~= seq![span]);
    reveal_strlit("id");
    reveal_strlit("style");
    assert("id"@ != "style"@) by {
        assert("id"@.len() != "style"@.len());
    }
    let attrs = span.data->Element_attrs;
    assert(attrs.drop_last() =~= seq![attrs[0]]);
    assert(seq![attrs[0]].drop_last() =~= Seq::<dom::AttrV>::empty());
    assert(pdu::attr_pos(Seq::<dom::AttrV>::empty(), "id"@) == -1);
    assert(pdu::attr_pos(Seq::<dom::AttrV>::empty(), "style"@) == -1);
    assert(attrs[0].name.local == "id"@);
    assert(pdu::attr_pos(seq![attrs[0]], "id"@) == 0);
    assert(pdu::attr_pos(attrs, "id"@) == 0);
    assert(pdu::attr_pos(seq![attrs[0]], "style"@) == -1);
    assert(pdu::attr_pos(attrs, "style"@) == 1);
    assert(pdu::element_match_spec(span, sp));
    let text = span.children[0];
    assert(pdu::matches_in(text.children, sp, true) =~= Seq::<NodeV>::empty());
    assert(pdu::matches_at(text, sp, true) =~= Seq::<NodeV>::empty());
    assert(seq![text].subrange(0, 0) =~= Seq::<NodeV>::empty());
    assert(pdu::matches_in(span.children, sp, true) =~= Seq::<NodeV>::empty());
    assert(pdu::matches_at(span, sp, true) =~= seq![span]);
    assert(seq![span].subrange(0, 0) =~= Seq::<NodeV>::empty());
    assert(pdu::matches_in(bd2.children, sp, true) =~= seq![span]);
    assert(pdu::matches_at(bd2, sp, true) =~= seq![span]);
    lemma_matches_in_none(hd.children, sp);
    assert(pdu::matches_at(hd, sp, true) =~= Seq::<NodeV>::empty());
    assert(seq![hd, bd2].subrange(0, 1) =~= seq![hd]);
    assert(seq![hd].subrange(0, 0) =~= Seq::<NodeV>::empty());
    assert(pdu::matches_in(seq![hd], sp, true) =~= Seq::<NodeV>::empty());
    assert(pdu::matches_in(html2.children, sp, true) =~= seq![span]);
    assert(pdu::matches_at(html2, sp, true) =~= seq![span]);
    assert(seq![html2].subrange(0, 0) =~= Seq::<NodeV>::empty());
    assert(pdu::matches_in(d2.children, sp, true) =~= seq![span]);
}

proof fn lemma_leaf_doc_free(n: NodeV)
    requires
        !(n.data is Document),
        n.children.len() == 0,
    ensures
        dom::doc_free(n),
{
    assert(dom::not_doc()(n));
}

proof fn lemma_parent_doc_free(n: NodeV, c: NodeV)
    requires
        !(n.data is Document),
        !(c.data is Document),
        c.children.len() == 0,
    ensures
        dom::doc_free(with_children(n, seq![c])),
{
    lemma_leaf_doc_free(c);
    dom::lemma_doc_free_in(seq![c]);
}

fn head_set(page_dom: &mut PageDom, page_json: &Json)
    requires
        pdu::first_in(old(page_dom).dom@.children, page_dom::head_ptn()) >= 0,
        dom::doc_free_in(old(page_dom).dom@.children),
    ensures
        final(page_dom).dom@ == edited(old(page_dom).dom@, page_dom::head_ptn(), head_edit(page_json@)),
        dom::doc_free_in(final(page_dom).dom@.children),
{
    let mut head_children: Vec<DomNode> = Vec::new();
    head_children.push(title_node(page_json));
    let meta = node_element("meta", &vec![("charset", "UTF-8")]);
    assert(meta@.data->Element_attrs =~= seq![attr_spec("charset"@, "UTF-8"@)]);
    head_children.push(meta);
    let script = node_element("script", &vec![("src", "/wc.js")]);
    assert(script@.data->Element_attrs =~= seq![attr_spec("src"@, "/wc.js"@)]);
    head_children.push(script);
    head_children.push(style_node());
    let link = node_element("link", &vec![("rel", "stylesheet"), ("href", "/wc.css")]);
    assert(link@.data->Element_attrs =~= seq![attr_spec("rel"@, "stylesheet"@), attr_spec("href"@, "/wc.css"@)]);
    head_children.push(link);
    let e = pdu::Edit { attrs: Vec::new(), children: head_children };
    assert(e@.attrs =~= Seq::empty());
    assert(e@.children =~= head_edit(page_json@).children);
    let head = node_element("head", &vec![]);
    assert(head@.data->Element_attrs =~= Seq::empty());
    let ghost before = page_dom.dom@;
    proof {
        dom::lemma_children_view(page_dom.dom);
        let hc = head_edit(page_json@).children;
        lemma_parent_doc_free(node_element_spec("title"@, Seq::empty()), node_text_spec(title_of(page_json@)));
        lemma_leaf_doc_free(hc[1]);
        lemma_leaf_doc_free(hc[2]);
        lemma_parent_doc_free(node_element_spec("style"@, seq![attr_spec("type"@, "text/css"@)]), node_text_spec(STYLE_CSS@));
        lemma_leaf_doc_free(hc[4]);
        dom::lemma_doc_free_in(hc);
        pdu::lemma_edit_doc_free(before.children, page_dom::head_ptn(), head_edit(page_json@));
    }
    pdu::edit_first_in(&mut page_dom.dom.children, &head, &e);
    proof {
        dom::lemma_children_view(page_dom.dom);
    }
    assert(page_dom.dom@.data == before.data);
}

fn title_node(page_json: &Json) -> (r: DomNode)
    ensures
        r@ == title_node_spec(page_json@),
{
    proof {
        reveal_strlit("");
        assert(""@ =~= Seq::<char>::empty());
    }
    let mut title_str = "";
    if let Some(s) = page_json.str_at(&["data", "page", "title"]) {
        title_str = s;
    }
    proof {
        assert(jvalue::path_view(seq!["data", "page", "title"]) =~= seq!["data"@, "page"@, "title"@]);
        reveal_with_fuel(jvalue::get_path, 4);
    }
    let mut title_node = node_element("title", &vec![]);
    assert(title_node@.data->Element_attrs =~= Seq::empty());
    let title_text = node_text(title_str);
    title_node.children.push(title_text);
    proof {
        dom::lemma_children_view(title_node);
    }
    assert(title_node@.children =~= seq![node_text_spec(title_str@)]);
    title_node
}

fn style_node() -> (r: DomNode)
    ensures
        r@ == style_node_spec(),
{
    let css_text = node_text(STYLE_CSS);
    let mut style = node_element("style", &vec![("type", "text/css")]);
    assert(style@.data->Element_attrs =~= seq![attr_spec("type"@, "text/css"@)]);
    style.children.push(css_text);
    proof {
        dom::lemma_children_view(style);
    }
    assert(style@.children =~= seq![node_text_spec(STYLE_CSS@)]);
    style
}

fn body_set(page_dom: &mut PageDom, page_json: &Json)
    requires
        pdu::first_in(old(page_dom).dom@.children, page_dom::body_ptn()) >= 0,
        dom::doc_free_in(old(page_dom).dom@.children),
    ensures
        final(page_dom).dom@ == edited(old(page_dom).dom@, page_dom::body_ptn(), body_edit(page_json@)),
        dom::doc_free_in(final(page_dom).dom@.children),
{
    let mut attrs = Vec::new();
    attrs.push(attr("onload", "bodyOnload()"));
    let mut node_span_json = page_dom::node_span_page_json();
    let node_js_text = node_text(jvalue::to_text(page_json).as_str());
    node_span_json.children.push(node_js_text);
    proof {
        dom::lemma_children_view(node_span_json);
    }
    assert(node_span_json@.children =~= seq![node_text_spec(jvalue::json_text(page_json@))]);
    let mut children = Vec::new();
    children.push(node_span_json);
    let e = pdu::Edit { attrs, children };
    assert(e@.attrs =~= body_edit(page_json@).attrs);
    assert(e@.children =~= body_edit(page_json@).children);
    let body = node_element("body", &vec![]);
    assert(body@.data->Element_attrs =~= Seq::empty());
    let ghost before = page_dom.dom@;
    proof {
        dom::lemma_children_view(page_dom.dom);
        lemma_parent_doc_free(page_dom::span_page_json_spec(), node_text_spec(jvalue::json_text(page_json@)));
        dom::lemma_doc_free_in(body_edit(page_json@).children);
        pdu::lemma_edit_doc_free(before.children, page_dom::body_ptn(), body_edit(page_json@));
    }
    pdu::edit_first_in(&mut page_dom.dom.children, &body, &e);
    proof {
        dom::lemma_children_view(page_dom.dom);
    }
    assert(page_dom.dom@.data == before.data);
}

} // verus!
