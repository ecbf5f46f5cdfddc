//! The document tree that pages are parsed into and written out from.
//!
//! `DomNode` is the executable tree, `NodeV` its mathematical view.  A document
//! is a `Document` node whose children are the top-level nodes; below the
//! root no `Document` node occurs.  Parsing and serializing go through
//! html5ever.
use vstd::prelude::*;
use html5ever::tendril::TendrilSink;
use std::cell::RefCell;
use std::rc::Rc;
use markup5ever_rcdom::NodeData as RcData;

verus! {

/// The name of an element or attribute: optional prefix, namespace URI and
/// local name.
pub struct ElemName {
    pub prefix: Option<String>,
    pub ns: String,
    pub local: String,
}

/// An attribute of an element.
pub struct Attr {
    pub name: ElemName,
    pub value: String,
}

/// What a node is.
pub enum NodeKind {
    Document,
    Doctype { name: String, public_id: String, system_id: String },
    Text { contents: String },
    Comment { contents: String },
    Element { name: ElemName, attrs: Vec<Attr> },
    ProcessingInstruction { target: String, contents: String },
}

/// A node with its children in document order.
pub struct DomNode {
    pub data: NodeKind,
    pub children: Vec<DomNode>,
}

/// The view of a `ElemName`.
pub struct ElemNameV {
    pub prefix: Option<Seq<char>>,
    pub ns: Seq<char>,
    pub local: Seq<char>,
}

/// The view of an `Attr`.
pub struct AttrV {
    pub name: ElemNameV,
    pub value: Seq<char>,
}

/// The view of a `NodeKind`.
pub enum DataV {
    Document,
    Doctype { name: Seq<char>, public_id: Seq<char>, system_id: Seq<char> },
    Text { contents: Seq<char> },
    Comment { contents: Seq<char> },
    Element { name: ElemNameV, attrs: Seq<AttrV> },
    ProcessingInstruction { target: Seq<char>, contents: Seq<char> },
}

/// The view of a `DomNode`.
pub struct NodeV {
    pub data: DataV,
    pub children: Seq<NodeV>,
}

impl View for ElemName {
    type V = ElemNameV;

    open spec fn view(&self) -> ElemNameV {
        ElemNameV {
            prefix: match self.prefix {
                Some(p) => Some(p@),
                None => None,
            },
            ns: self.ns@,
            local: self.local@,
        }
    }
}

impl View for Attr {
    type V = AttrV;

    open spec fn view(&self) -> AttrV {
        AttrV { name: self.name@, value: self.value@ }
    }
}

/// The views of a list of attributes.
pub open spec fn attrs_view(a: Seq<Attr>) -> Seq<AttrV> {
    a.map_values(|x: Attr| x@)
}

impl View for NodeKind {
    type V = DataV;

    open spec fn view(&self) -> DataV {
        match self {
            NodeKind::Document => DataV::Document,
            NodeKind::Doctype { name, public_id, system_id } => DataV::Doctype {
                name: name@,
                public_id: public_id@,
                system_id: system_id@,
            },
            NodeKind::Text { contents } => DataV::Text { contents: contents@ },
            NodeKind::Comment { contents } => DataV::Comment { contents: contents@ },
            NodeKind::Element { name, attrs } => DataV::Element {
                name: name@,
                attrs: attrs_view(attrs@),
            },
            NodeKind::ProcessingInstruction { target, contents } => DataV::ProcessingInstruction {
                target: target@,
                contents: contents@,
            },
        }
    }
}

/// The view of a node.
pub open spec fn nv(n: DomNode) -> NodeV
    decreases n,
{
    NodeV {
        data: n.data@,
        children: Seq::new(
            n.children.len() as nat,
            |i: int|
                if 0 <= i < n.children.len() {
                    nv(n.children[i])
                } else {
                    NodeV { data: DataV::Document, children: Seq::empty() }
                },
        ),
    }
}

impl View for DomNode {
    type V = NodeV;

    open spec fn view(&self) -> NodeV {
        nv(*self)
    }
}

/// The views of a list of nodes.
pub open spec fn views(s: Seq<DomNode>) -> Seq<NodeV> {
    Seq::new(s.len(), |i: int| nv(s[i]))
}

pub proof fn lemma_children_view(n: DomNode)
    ensures
        n@.children == views(n.children@),
{
    assert(n@.children =~= views(n.children@));
}

/// Whether every node of the tree satisfies `p`.
pub open spec fn tree_all(n: NodeV, p: spec_fn(NodeV) -> bool) -> bool
    decreases n, 1int,
{
    p(n) && tree_all_in(n.children, p)
}

/// Whether every node of the trees satisfies `p`.
pub open spec fn tree_all_in(cs: Seq<NodeV>, p: spec_fn(NodeV) -> bool) -> bool
    decreases cs, 0int,
{
    if cs.len() == 0 {
        true
    } else {
        tree_all_in(cs.subrange(0, cs.len() - 1), p) && tree_all(cs[cs.len() - 1], p)
    }
}

pub proof fn lemma_tree_all_in(cs: Seq<NodeV>, p: spec_fn(NodeV) -> bool)
    ensures
        tree_all_in(cs, p) <==> forall|i: int| 0 <= i < cs.len() ==> tree_all(#[trigger] cs[i], p),
    decreases cs.len(),
{
    if cs.len() > 0 {
        let d = cs.subrange(0, cs.len() - 1);
        lemma_tree_all_in(d, p);
        assert forall|i: int| 0 <= i < d.len() implies d[i] == cs[i] by {}
        if forall|i: int| 0 <= i < cs.len() ==> tree_all(#[trigger] cs[i], p) {
            assert forall|i: int| 0 <= i < d.len() implies tree_all(#[trigger] d[i], p) by {
                assert(tree_all(cs[i], p));
            }
        }
    }
}

/// The property of not being a `Document` node.
pub open spec fn not_doc() -> spec_fn(NodeV) -> bool {
    |x: NodeV| !(x.data is Document)
}

/// Whether no `Document` node occurs in the tree.
pub open spec fn doc_free(n: NodeV) -> bool {
    tree_all(n, not_doc())
}

/// Whether no `Document` node occurs in any of the trees.
pub open spec fn doc_free_in(cs: Seq<NodeV>) -> bool {
    tree_all_in(cs, not_doc())
}

pub proof fn lemma_doc_free_in(cs: Seq<NodeV>)
    ensures
        doc_free_in(cs) <==> forall|i: int| 0 <= i < cs.len() ==> doc_free(#[trigger] cs[i]),
{
    lemma_tree_all_in(cs, not_doc());
}

/// The height of a tree: 1 for a node without children.
pub open spec fn height(n: NodeV) -> nat
    decreases n, 1int,
{
    1 + heights_max(n.children)
}

/// The greatest height among the trees, 0 when there are none.
pub open spec fn heights_max(cs: Seq<NodeV>) -> nat
    decreases cs, 0int,
{
    if cs.len() == 0 {
        0
    } else {
        let a = heights_max(cs.subrange(0, cs.len() - 1));
        let b = height(cs[cs.len() - 1]);
        if a < b {
            b
        } else {
            a
        }
    }
}

pub proof fn lemma_heights_max(cs: Seq<NodeV>)
    ensures
        forall|i: int| 0 <= i < cs.len() ==> height(#[trigger] cs[i]) <= heights_max(cs),
    decreases cs.len(),
{
    if cs.len() > 0 {
        let d = cs.subrange(0, cs.len() - 1);
        lemma_heights_max(d);
        assert forall|i: int| 0 <= i < cs.len() implies height(#[trigger] cs[i]) <= heights_max(cs) by {
            if i < cs.len() - 1 {
                assert(d[i] == cs[i]);
            }
        }
    }
}

/// A copy of the name.
pub fn clone_name(q: &ElemName) -> (r: ElemName)
    ensures
        r@ == q@,
{
    ElemName {
        prefix: match &q.prefix {
            Some(p) => Some(p.clone()),
            None => None,
        },
        ns: q.ns.clone(),
        local: q.local.clone(),
    }
}

/// A copy of the attribute list.
pub fn clone_attrs(a: &Vec<Attr>) -> (r: Vec<Attr>)
    ensures
        attrs_view(r@) == attrs_view(a@),
{
    let mut out: Vec<Attr> = Vec::new();
    let mut i: usize = 0;
    while i < a.len()
        invariant
            i <= a.len(),
            out.len() == i,
            forall|j: int| 0 <= j < i ==> (#[trigger] out@[j])@ == a@[j]@,
        decreases a.len() - i,
    {
        out.push(Attr { name: clone_name(&a[i].name), value: a[i].value.clone() });
        i = i + 1;
    }
    assert(attrs_view(out@) =~= attrs_view(a@));
    out
}

/// A copy of the node data.
pub fn clone_data(d: &NodeKind) -> (r: NodeKind)
    ensures
        r@ == d@,
{
    match d {
        NodeKind::Document => NodeKind::Document,
        NodeKind::Doctype { name, public_id, system_id } => NodeKind::Doctype {
            name: name.clone(),
            public_id: public_id.clone(),
            system_id: system_id.clone(),
        },
        NodeKind::Text { contents } => NodeKind::Text { contents: contents.clone() },
        NodeKind::Comment { contents } => NodeKind::Comment { contents: contents.clone() },
        NodeKind::Element { name, attrs } => NodeKind::Element {
            name: clone_name(name),
            attrs: clone_attrs(attrs),
        },
        NodeKind::ProcessingInstruction { target, contents } => NodeKind::ProcessingInstruction {
            target: target.clone(),
            contents: contents.clone(),
        },
    }
}

impl DomNode {
    /// A copy of the tree.
    pub fn deep_clone(&self) -> (r: DomNode)
        ensures
            r@ == self@,
        decreases self,
    {
        let data = clone_data(&self.data);
        let mut out: Vec<DomNode> = Vec::new();
        let mut i: usize = 0;
        while i < self.children.len()
            invariant
                i <= self.children.len(),
                out.len() == i,
                forall|j: int| 0 <= j < i ==> nv(#[trigger] out@[j]) == nv(self.children@[j]),
            decreases self.children.len() - i,
        {
            proof {
                assert(decreases_to!(*self => self.children));
                vstd::std_specs::vec::axiom_vec_index_decreases(self.children, i as int);
            }
            let c = self.children[i].deep_clone();
            out.push(c);
            i = i + 1;
        }
        let r = DomNode { data, children: out };
        assert(r@.children =~= self@.children);
        r
    }
}

/// The document tree that html5ever parses from a text.
pub uninterp spec fn html_parse_spec(source: Seq<char>) -> NodeV;

/// The text that html5ever's serializer writes for a list of nodes (the
/// children of a node, each with its subtree).
pub uninterp spec fn html_serialize_spec(children: Seq<NodeV>) -> Seq<char>;

/// html5ever's own node type, held by its reference-counted handles.
#[verifier::external_type_specification]
#[verifier::external_body]
pub struct ExRcNode(markup5ever_rcdom::Node);

/// What an html5ever node is.
#[verifier::external_type_specification]
#[verifier::external_body]
pub struct ExRcNodeData(markup5ever_rcdom::NodeData);

/// html5ever's name of an element or attribute.
#[verifier::external_type_specification]
#[verifier::external_body]
pub struct ExQualName(markup5ever::QualName);

/// html5ever's attribute.
#[verifier::external_type_specification]
#[verifier::external_body]
pub struct ExAttribute(markup5ever::Attribute);

/// A name of html5ever's, as texts; part of `parse_html`.
#[verifier::external_body]
fn qual_of(q: &markup5ever::QualName) -> ElemName {
    ElemName { prefix: q.prefix.as_ref().map(|p| p.to_string()), ns: q.ns.to_string(), local: q.local.to_string() }
}

/// An attribute of html5ever's, as texts; part of `parse_html`.
#[verifier::external_body]
fn attr_of(a: &markup5ever::Attribute) -> Attr {
    Attr { name: qual_of(&a.name), value: a.value.to_string() }
}

/// What an html5ever node is, as texts, variant for variant; part of
/// `parse_html`.
#[verifier::external_body]
fn data_of(d: &RcData) -> NodeKind {
    match d {
        RcData::Document => NodeKind::Document,
        RcData::Doctype { name, public_id, system_id } => NodeKind::Doctype { name: name.to_string(), public_id: public_id.to_string(), system_id: system_id.to_string() },
        RcData::Text { contents } => NodeKind::Text { contents: contents.borrow().to_string() },
        RcData::Comment { contents } => NodeKind::Comment { contents: contents.to_string() },
        RcData::Element { name, attrs, .. } => NodeKind::Element { name: qual_of(name), attrs: attrs.borrow().iter().map(attr_of).collect() },
        RcData::ProcessingInstruction { target, contents } => NodeKind::ProcessingInstruction { target: target.to_string(), contents: contents.to_string() },
    }
}

/// The tree below a handle of html5ever's tree, node for node; part of
/// `parse_html`.
#[verifier::external_body]
fn node_from_handle(h: &Rc<markup5ever_rcdom::Node>) -> DomNode {
    DomNode { data: data_of(&h.data), children: h.children.borrow().iter().map(node_from_handle).collect() }
}

/// A name as html5ever holds it; part of `serialize_children`.
#[verifier::external_body]
fn qual_to(q: &ElemName) -> markup5ever::QualName {
    markup5ever::QualName::new(q.prefix.as_ref().map(|p| p.as_str().into()), q.ns.as_str().into(), q.local.as_str().into())
}

/// An attribute as html5ever holds it; part of `serialize_children`.
#[verifier::external_body]
fn attr_to(a: &Attr) -> markup5ever::Attribute {
    markup5ever::Attribute { name: qual_to(&a.name), value: a.value.as_str().into() }
}

/// What a node is, as html5ever holds it, variant for variant; part of
/// `serialize_children`.
#[verifier::external_body]
fn data_to(d: &NodeKind) -> RcData {
    match d {
        NodeKind::Document => RcData::Document,
        NodeKind::Doctype { name, public_id, system_id } => RcData::Doctype { name: name.as_str().into(), public_id: public_id.as_str().into(), system_id: system_id.as_str().into() },
        NodeKind::Text { contents } => RcData::Text { contents: RefCell::new(contents.as_str().into()) },
        NodeKind::Comment { contents } => RcData::Comment { contents: contents.as_str().into() },
        NodeKind::Element { name, attrs } => element_to(name, attrs),
        NodeKind::ProcessingInstruction { target, contents } => RcData::ProcessingInstruction { target: target.as_str().into(), contents: contents.as_str().into() },
    }
}

/// An element as html5ever holds it, with no template contents; part of
/// `serialize_children`.
#[verifier::external_body]
fn element_to(name: &ElemName, attrs: &Vec<Attr>) -> RcData {
    let attrs = RefCell::new(attrs.iter().map(attr_to).collect());
    RcData::Element { name: qual_to(name), attrs, template_contents: RefCell::new(None), mathml_annotation_xml_integration_point: false }
}

/// An html5ever tree with the same nodes as the tree; part of
/// `serialize_children`.
#[verifier::external_body]
fn handle_from_node(n: &DomNode) -> Rc<markup5ever_rcdom::Node> {
    let h = markup5ever_rcdom::Node::new(data_to(&n.data));
    h.children.borrow_mut().extend(n.children.iter().map(handle_from_node));
    h
}

/// The namespace of HTML elements.
pub open spec fn html_ns() -> Seq<char> {
    "http://www.w3.org/1999/xhtml"@
}

/// An HTML element as html5ever's tree builder makes it when the text does
/// not name it: in the HTML namespace, without prefix or attributes.
pub open spec fn html_elem(local: Seq<char>, cs: Seq<NodeV>) -> NodeV {
    NodeV {
        data: DataV::Element { name: ElemNameV { prefix: None, ns: html_ns(), local }, attrs: Seq::empty() },
        children: cs,
    }
}

/// The document that html5ever makes of an empty text: `<html>` holding an
/// empty `<head>` and an empty `<body>`.
pub open spec fn empty_document() -> NodeV {
    NodeV {
        data: DataV::Document,
        children: seq![html_elem("html"@, seq![html_elem("head"@, Seq::empty()), html_elem("body"@, Seq::empty())])],
    }
}

/// Parses an HTML document.
///
/// Claims of `html5ever::parse_document` with `RcDom` and default options,
/// fed the whole text by `one`: the tree is a function of the text, named
/// `html_parse_spec`; as `RcDom`'s tree sink shows, its root is the
/// `Document` node and no other `Document` node is ever placed among the
/// children (template contents, which `RcDom` keeps apart from the
/// children, are not part of the tree here).  Of an empty text it makes
/// `empty_document()`: at the end of the input, the tree builder's
/// insertion modes (`Initial`, `BeforeHtml`, `BeforeHead`, `InHead`,
/// `AfterHead`) create the root `html` element, then `head` and `body`
/// (`create_root` and `insert_phantom`, in the HTML namespace, without
/// attributes), and `InBody` stops.
#[verifier::external_body]
pub fn parse_html(source: &str) -> (r: DomNode)
    ensures
        r@ == html_parse_spec(source@),
        r@.data is Document,
        doc_free_in(r@.children),
        source@.len() == 0 ==> r@ == empty_document(),
{
    let dom = html5ever::parse_document(markup5ever_rcdom::RcDom::default(), Default::default())
        .one(source);
    node_from_handle(&dom.document)
}

/// Serializes the children of a node, each with its subtree.
///
/// Claims of `html5ever::serialize` with default options (children only) on
/// an `RcDom` handle: the text is a function of the children, named
/// `html_serialize_spec`.  The serializer panics on a `Document` node among
/// what it writes, which `requires` leaves out; it writes only UTF-8.
#[verifier::external_body]
pub fn serialize_children(n: &DomNode) -> (r: String)
    requires
        doc_free_in(n@.children),
    ensures
        r@ == html_serialize_spec(n@.children),
{
    let sh = markup5ever_rcdom::SerializableHandle::from(handle_from_node(n));
    let mut bytes: Vec<u8> = vec![];
    let _r = html5ever::serialize(&mut bytes, &sh, html5ever::serialize::SerializeOpts::default());
    String::from_utf8_lossy(&bytes).into_owned()
}

} // verus!
