//! A parsed page: finding its parts and writing it out as HTML.
use vstd::prelude::*;
use super::dom::{self, DataV, DomNode, NodeKind, NodeV};
use super::page_dom_utility::{self as pdu, attr_spec, matches_in, node_element_spec};

verus! {

/// A parsed page; `dom` is its `Document` node.
pub struct PageDom {
    pub dom: DomNode,
}

/// The first match of the pattern among the descendants of `n`, in
/// document order.
pub open spec fn first_match_of(n: NodeV, ptn: NodeV) -> Option<NodeV> {
    let l = matches_in(n.children, ptn, true);
    if l.len() > 0 {
        Some(l[0])
    } else {
        None
    }
}

/// The pattern `<head>`.
pub open spec fn head_ptn() -> NodeV {
    node_element_spec("head"@, Seq::empty())
}

/// The pattern `<body>`.
pub open spec fn body_ptn() -> NodeV {
    node_element_spec("body"@, Seq::empty())
}

/// `<script type="text/javascript" class="page_json">`.
pub open spec fn script_page_json_spec() -> NodeV {
    node_element_spec(
        "script"@,
        seq![attr_spec("type"@, "text/javascript"@), attr_spec("class"@, "page_json"@)],
    )
}

/// `<span id="page_json_str" style="display: none">`.
pub open spec fn span_page_json_spec() -> NodeV {
    node_element_spec(
        "span"@,
        seq![attr_spec("id"@, "page_json_str"@), attr_spec("style"@, "display: none"@)],
    )
}

/// The text of the first child of the page-data span, when it is a text.
pub open spec fn span_page_json_str_spec(d: NodeV) -> Option<Seq<char>> {
    match first_match_of(d, span_page_json_spec()) {
        Some(span) => if span.children.len() > 0 {
            match span.children[0].data {
                DataV::Text { contents } => Some(contents),
                _ => None,
            }
        } else {
            None
        },
        None => None,
    }
}

/// The document after `script_page_json`, with what it returns: when there
/// is no page-data script but a `<head>`, an empty one is appended to the
/// first `<head>`; then the first page-data script is looked up.
pub open spec fn script_page_json_result(d: NodeV) -> (NodeV, Option<NodeV>) {
    let s = script_page_json_spec();
    if first_match_of(d, s) is Some {
        (d, first_match_of(d, s))
    } else if first_match_of(d, head_ptn()) is Some {
        let d2 = NodeV {
            data: d.data,
            children: pdu::edit_in(
                d.children,
                head_ptn(),
                pdu::EditV { attrs: Seq::empty(), children: seq![s] },
            ),
        };
        (d2, first_match_of(d2, s))
    } else {
        (d, None)
    }
}

/// The HTML text of a document: a doctype line and its serialized children.
pub open spec fn to_html_spec(d: NodeV) -> Seq<char> {
    "<!DOCTYPE html>"@ + dom::html_serialize_spec(d.children)
}

impl PageDom {
    /// Parses a page.
    pub fn new(source: &str) -> (r: PageDom)
        ensures
            r.dom@ == dom::html_parse_spec(source@),
            r.dom@.data is Document,
            dom::doc_free_in(r.dom@.children),
            source@.len() == 0 ==> r.dom@ == dom::empty_document(),
    {
        let dom = dom::parse_html(source);
        PageDom { dom }
    }

    /// The first match of the pattern in the page.
    pub fn child_match_first(&self, ptn: &DomNode) -> (r: Option<DomNode>)
        ensures
            r matches Some(n) ==> first_match_of(self.dom@, ptn@) == Some(n@),
            r is None ==> first_match_of(self.dom@, ptn@) is None,
    {
        let mut list = pdu::child_match_list(&self.dom, ptn, true);
        if list.len() < 1 {
            return None;
        }
        assert(list@[0]@ == dom::views(list@)[0]);
        let child = list.remove(0);
        Some(child)
    }

    /// The first `<head>`.
    pub fn head(&self) -> (r: Option<DomNode>)
        ensures
            r matches Some(n) ==> first_match_of(self.dom@, head_ptn()) == Some(n@),
            r is None ==> first_match_of(self.dom@, head_ptn()) is None,
    {
        let ptn = pdu::node_element("head", &vec![]);
        assert(ptn@.data->Element_attrs =~= Seq::empty());
        self.child_match_first(&ptn)
    }

    /// The first `<body>`.
    pub fn body(&self) -> (r: Option<DomNode>)
        ensures
            r matches Some(n) ==> first_match_of(self.dom@, body_ptn()) == Some(n@),
            r is None ==> first_match_of(self.dom@, body_ptn()) is None,
    {
        let ptn = pdu::node_element("body", &vec![]);
        assert(ptn@.data->Element_attrs =~= Seq::empty());
        self.child_match_first(&ptn)
    }

    /// The span that holds the page data as text.
    pub fn span_page_json(&self) -> (r: Option<DomNode>)
        ensures
            r matches Some(n) ==> first_match_of(self.dom@, span_page_json_spec()) == Some(n@),
            r is None ==> first_match_of(self.dom@, span_page_json_spec()) is None,
    {
        let span_ptn = node_span_page_json();
        self.child_match_first(&span_ptn)
    }

    /// The page data text held in the span.
    pub fn span_page_json_str(&self) -> (r: Option<String>)
        ensures
            r matches Some(s) ==> span_page_json_str_spec(self.dom@) == Some(s@),
            r is None ==> span_page_json_str_spec(self.dom@) is None,
    {
        let node = match self.span_page_json() {
            Some(n) => n,
            None => return None,
        };
        proof {
            dom::lemma_children_view(node);
        }
        if node.children.len() == 0 {
            return None;
        }
        assert(node@.children[0] == node.children@[0]@);
        match &node.children[0].data {
            NodeKind::Text { contents } => Some(contents.clone()),
            _ => None,
        }
    }

    /// The page-data script, made in the first `<head>` when there is none.
    pub fn script_page_json(&mut self) -> (r: Option<DomNode>)
        ensures
            final(self).dom@ == script_page_json_result(old(self).dom@).0,
            r matches Some(n) ==> script_page_json_result(old(self).dom@).1 == Some(n@),
            r is None ==> script_page_json_result(old(self).dom@).1 is None,
    {
        let script_ptn = node_script_page_json();
        if self.child_match_first(&script_ptn).is_none() {
            match self.head() {
                Some(_head) => {
                    let script = node_script_page_json();
                    let mut children: Vec<DomNode> = Vec::new();
                    children.push(script);
                    let e = pdu::Edit { attrs: Vec::new(), children };
                    assert(e@.attrs =~= Seq::empty());
                    assert(e@.children =~= seq![script_page_json_spec()]);
                    let ptn = pdu::node_element("head", &vec![]);
                    assert(ptn@.data->Element_attrs =~= Seq::empty());
                    let ghost before = self.dom@;
                    proof {
                        dom::lemma_children_view(self.dom);
                    }
                    pdu::edit_first_in(&mut self.dom.children, &ptn, &e);
                    proof {
                        dom::lemma_children_view(self.dom);
                    }
                    assert(self.dom@.data == before.data);
                },
                None => return None,
            }
        }
        self.child_match_first(&script_ptn)
    }

    /// The serialized children of a node.
    pub fn serialize(&self, node: &DomNode) -> (r: String)
        requires
            dom::doc_free_in(node@.children),
        ensures
            r@ == dom::html_serialize_spec(node@.children),
    {
        dom::serialize_children(node)
    }

    /// The page as an HTML text.
    pub fn to_html(&self) -> (r: String)
        requires
            dom::doc_free_in(self.dom@.children),
        ensures
            r@ == to_html_spec(self.dom@),
    {
        let s = self.serialize(&self.dom);
        crate::text::concat("<!DOCTYPE html>", s.as_str())
    }
}

/// A new page-data script element.
pub fn node_script_page_json() -> (r: DomNode)
    ensures
        r@ == script_page_json_spec(),
{
    let r = pdu::node_element("script", &vec![("type", "text/javascript"), ("class", "page_json")]);
    assert(r@.data->Element_attrs =~= seq![attr_spec("type"@, "text/javascript"@), attr_spec("class"@, "page_json"@)]);
    r
}

/// A new page-data span element.
pub fn node_span_page_json() -> (r: DomNode)
    ensures
        r@ == span_page_json_spec(),
{
    let att = vec![("id", "page_json_str"), ("style", "display: none")];
    let r = pdu::node_element("span", &att);
    assert(r@.data->Element_attrs =~= seq![attr_spec("id"@, "page_json_str"@), attr_spec("style"@, "display: none"@)]);
    r
}

} // verus!
