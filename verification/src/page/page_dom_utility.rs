//! Building document nodes, and finding elements by name and attributes.
//!
//! A pattern is an element: a node matches it when the node is an element
//! with the same local name and, for each attribute of the pattern, the
//! node's first attribute of that local name has the same value.  Matches
//! are listed in document order (a node before its descendants).
use vstd::prelude::*;
use vstd::string::*;
use vstd::utf8::*;
use crate::jvalue::{self, Json, JVal};
use crate::text;
use super::page_utility::bytes_text;
use super::dom::{
    self, Attr, AttrV, DataV, DomNode, NodeKind, NodeV, ElemName, ElemNameV,
};

verus! {

/// The name of a created element or attribute: no prefix, no namespace.
pub open spec fn qual_name_spec(name: Seq<char>) -> ElemNameV {
    ElemNameV { prefix: None, ns: Seq::empty(), local: name }
}

/// A created attribute.
pub open spec fn attr_spec(name: Seq<char>, value: Seq<char>) -> AttrV {
    AttrV { name: qual_name_spec(name), value }
}

/// The attributes made from name and value pairs.
pub open spec fn attrs_spec(pairs: Seq<(&str, &str)>) -> Seq<AttrV> {
    Seq::new(pairs.len(), |i: int| attr_spec(pairs[i].0@, pairs[i].1@))
}

/// A created element without children.
pub open spec fn node_element_spec(name: Seq<char>, attrs: Seq<AttrV>) -> NodeV {
    NodeV { data: DataV::Element { name: qual_name_spec(name), attrs }, children: Seq::empty() }
}

/// A created text node.
pub open spec fn node_text_spec(text: Seq<char>) -> NodeV {
    NodeV { data: DataV::Text { contents: text }, children: Seq::empty() }
}

/// An element with no children, its name and attributes given as texts.
pub fn node_element(ele_name: &str, attrs_vec: &Vec<(&str, &str)>) -> (r: DomNode)
    ensures
        r@ == node_element_spec(ele_name@, attrs_spec(attrs_vec@)),
{
    let r = DomNode {
        data: NodeKind::Element { name: qual_name(ele_name), attrs: attrs(attrs_vec) },
        children: Vec::new(),
    };
    assert(r@.children =~= Seq::<NodeV>::empty());
    r
}

/// A name with no prefix and no namespace.
pub fn qual_name(name: &str) -> (r: ElemName)
    ensures
        r@ == qual_name_spec(name@),
{
    ElemName { prefix: None, ns: String::new(), local: String::from_str(name) }
}

fn attrs(attrs_vec: &Vec<(&str, &str)>) -> (r: Vec<Attr>)
    ensures
        dom::attrs_view(r@) == attrs_spec(attrs_vec@),
{
    let mut attr_list: Vec<Attr> = Vec::new();
    let mut i: usize = 0;
    while i < attrs_vec.len()
        invariant
            i <= attrs_vec.len(),
            attr_list.len() == i,
            forall|j: int|
                0 <= j < i ==> (#[trigger] attr_list@[j])@ == attr_spec(
                    attrs_vec@[j].0@,
                    attrs_vec@[j].1@,
                ),
        decreases attrs_vec.len() - i,
    {
        let (name, value) = attrs_vec[i];
        attr_list.push(attr(name, value));
        i = i + 1;
    }
    assert(dom::attrs_view(attr_list@) =~= attrs_spec(attrs_vec@));
    attr_list
}

/// An attribute with no prefix and no namespace.
pub fn attr(name: &str, value: &str) -> (r: Attr)
    ensures
        r@ == attr_spec(name@, value@),
{
    Attr { name: qual_name(name), value: String::from_str(value) }
}

/// A text node.
pub fn node_text(text: &str) -> (r: DomNode)
    ensures
        r@ == node_text_spec(text@),
{
    let r = DomNode { data: NodeKind::Text { contents: String::from_str(text) }, children: Vec::new() };
    assert(r@.children =~= Seq::<NodeV>::empty());
    r
}

/// The position of the first attribute with local name `local`, or -1.
pub open spec fn attr_pos(attrs: Seq<AttrV>, local: Seq<char>) -> int
    decreases attrs.len(),
{
    if attrs.len() == 0 {
        -1
    } else {
        let p = attr_pos(attrs.drop_last(), local);
        if p >= 0 {
            p
        } else if attrs.last().name.local == local {
            attrs.len() - 1
        } else {
            -1
        }
    }
}

proof fn lemma_attr_pos(attrs: Seq<AttrV>, local: Seq<char>)
    ensures
        -1 <= attr_pos(attrs, local) < attrs.len(),
        attr_pos(attrs, local) >= 0 ==> attrs[attr_pos(attrs, local)].name.local == local,
        attr_pos(attrs, local) >= 0 ==> forall|i: int|
            0 <= i < attr_pos(attrs, local) ==> (#[trigger] attrs[i]).name.local != local,
        attr_pos(attrs, local) < 0 ==> forall|i: int|
            0 <= i < attrs.len() ==> (#[trigger] attrs[i]).name.local != local,
    decreases attrs.len(),
{
    if attrs.len() > 0 {
        let d = attrs.drop_last();
        lemma_attr_pos(d, local);
        assert(forall|i: int| 0 <= i < d.len() ==> d[i] == attrs[i]);
    }
}

proof fn lemma_attr_pos_at(attrs: Seq<AttrV>, local: Seq<char>, i: int)
    requires
        0 <= i < attrs.len(),
        attrs[i].name.local == local,
        forall|j: int| 0 <= j < i ==> (#[trigger] attrs[j]).name.local != local,
    ensures
        attr_pos(attrs, local) == i,
    decreases attrs.len(),
{
    if i < attrs.len() - 1 {
        lemma_attr_pos_at(attrs.drop_last(), local, i);
    } else {
        lemma_attr_pos(attrs.drop_last(), local);
    }
}

/// Whether each attribute of the pattern is matched: the first attribute of
/// its local name exists and has its value.
pub open spec fn attrs_match_spec(attrs: Seq<AttrV>, ptn: Seq<AttrV>) -> bool {
    forall|k: int|
        0 <= k < ptn.len() ==> attr_pos(attrs, (#[trigger] ptn[k]).name.local) >= 0 && attrs[attr_pos(
            attrs,
            ptn[k].name.local,
        )].value == ptn[k].value
}

pub proof fn lemma_attrs_match_empty(attrs: Seq<AttrV>)
    ensures
        attrs_match_spec(attrs, Seq::empty()),
{
}

/// Whether a node matches a pattern.
pub open spec fn element_match_spec(n: NodeV, ptn: NodeV) -> bool {
    match (n.data, ptn.data) {
        (DataV::Element { name, attrs }, DataV::Element { name: pname, attrs: pattrs }) => name.local
            == pname.local && attrs_match_spec(attrs, pattrs),
        _ => false,
    }
}

/// The nodes among `cs` (and, when `rec`, their descendants) that match
/// the pattern, in document order.
pub open spec fn matches_in(cs: Seq<NodeV>, ptn: NodeV, rec: bool) -> Seq<NodeV>
    decreases cs,
{
    if cs.len() == 0 {
        Seq::empty()
    } else {
        matches_in(cs.subrange(0, cs.len() - 1), ptn, rec) + matches_at(cs[cs.len() - 1], ptn, rec)
    }
}

/// The node itself when it matches, followed (when `rec`) by the matches
/// among its descendants.
pub open spec fn matches_at(c: NodeV, ptn: NodeV, rec: bool) -> Seq<NodeV>
    decreases c,
{
    (if element_match_spec(c, ptn) {
        seq![c]
    } else {
        Seq::empty()
    }) + (if rec {
        matches_in(c.children, ptn, rec)
    } else {
        Seq::empty()
    })
}

pub proof fn lemma_matches_in_push(cs: Seq<NodeV>, c: NodeV, ptn: NodeV, rec: bool)
    ensures
        matches_in(cs.push(c), ptn, rec) == matches_in(cs, ptn, rec) + matches_at(c, ptn, rec),
{
    assert(cs.push(c).subrange(0, cs.len() as int) =~= cs);
}

/// What holds of every node of the trees holds of every match among them.
pub proof fn lemma_matches_tree_all(
    cs: Seq<NodeV>,
    ptn: NodeV,
    rec: bool,
    p: spec_fn(NodeV) -> bool,
)
    requires
        dom::tree_all_in(cs, p),
    ensures
        forall|i: int|
            0 <= i < matches_in(cs, ptn, rec).len() ==> dom::tree_all(
                #[trigger] matches_in(cs, ptn, rec)[i],
                p,
            ),
    decreases cs,
{
    if cs.len() > 0 {
        let d = cs.subrange(0, cs.len() - 1);
        dom::lemma_tree_all_in(cs, p);
        dom::lemma_tree_all_in(d, p);
        assert forall|i: int| 0 <= i < d.len() implies dom::tree_all(#[trigger] d[i], p) by {
            assert(d[i] == cs[i]);
        }
        lemma_matches_tree_all(d, ptn, rec, p);
        lemma_matches_at_tree_all(cs[cs.len() - 1], ptn, rec, p);
        let a = matches_in(d, ptn, rec);
        let b = matches_at(cs[cs.len() - 1], ptn, rec);
        assert forall|i: int| 0 <= i < (a + b).len() implies dom::tree_all(#[trigger] (a + b)[i], p) by {
            if i < a.len() {
                assert(dom::tree_all(a[i], p));
            } else {
                assert(dom::tree_all(b[i - a.len()], p));
            }
        }
    }
}

pub proof fn lemma_matches_at_tree_all(c: NodeV, ptn: NodeV, rec: bool, p: spec_fn(NodeV) -> bool)
    requires
        dom::tree_all(c, p),
    ensures
        forall|i: int|
            0 <= i < matches_at(c, ptn, rec).len() ==> dom::tree_all(
                #[trigger] matches_at(c, ptn, rec)[i],
                p,
            ),
    decreases c,
{
    let a: Seq<NodeV> = if element_match_spec(c, ptn) {
        seq![c]
    } else {
        Seq::empty()
    };
    let b: Seq<NodeV> = if rec {
        matches_in(c.children, ptn, rec)
    } else {
        Seq::empty()
    };
    if rec {
        lemma_matches_tree_all(c.children, ptn, rec, p);
    }
    assert forall|i: int| 0 <= i < (a + b).len() implies dom::tree_all(#[trigger] (a + b)[i], p) by {
        if i < a.len() {
            assert(a[i] == c);
        } else {
            assert(dom::tree_all(b[i - a.len()], p));
        }
    }
}

/// Every match among the children of a node is lower than the node.
pub proof fn lemma_matches_height(cs: Seq<NodeV>, ptn: NodeV, rec: bool)
    ensures
        forall|i: int|
            0 <= i < matches_in(cs, ptn, rec).len() ==> dom::height(
                #[trigger] matches_in(cs, ptn, rec)[i],
            ) <= dom::heights_max(cs),
    decreases cs,
{
    if cs.len() > 0 {
        let d = cs.subrange(0, cs.len() - 1);
        let c = cs[cs.len() - 1];
        lemma_matches_height(d, ptn, rec);
        lemma_matches_at_height(c, ptn, rec);
        dom::lemma_heights_max(cs);
        let a = matches_in(d, ptn, rec);
        let b = matches_at(c, ptn, rec);
        assert forall|i: int| 0 <= i < (a + b).len() implies dom::height(#[trigger] (a + b)[i])
            <= dom::heights_max(cs) by {
            if i < a.len() {
                assert(dom::height(a[i]) <= dom::heights_max(d));
            } else {
                assert(dom::height(b[i - a.len()]) <= dom::height(c));
            }
        }
    }
}

pub proof fn lemma_matches_at_height(c: NodeV, ptn: NodeV, rec: bool)
    ensures
        forall|i: int|
            0 <= i < matches_at(c, ptn, rec).len() ==> dom::height(
                #[trigger] matches_at(c, ptn, rec)[i],
            ) <= dom::height(c),
    decreases c,
{
    let a: Seq<NodeV> = if element_match_spec(c, ptn) {
        seq![c]
    } else {
        Seq::empty()
    };
    let b: Seq<NodeV> = if rec {
        matches_in(c.children, ptn, rec)
    } else {
        Seq::empty()
    };
    if rec {
        lemma_matches_height(c.children, ptn, rec);
    }
    assert forall|i: int| 0 <= i < (a + b).len() implies dom::height(#[trigger] (a + b)[i])
        <= dom::height(c) by {
        if i < a.len() {
            assert(a[i] == c);
        } else {
            assert(dom::height(b[i - a.len()]) <= dom::heights_max(c.children));
        }
    }
}

/// The matches among the children of `node_obj` (and their descendants when
/// `recursive`), in document order.
pub fn child_match_list(node_obj: &DomNode, node_ptn: &DomNode, recursive: bool) -> (r: Vec<
    DomNode,
>)
    ensures
        dom::views(r@) == matches_in(node_obj@.children, node_ptn@, recursive),
{
    let mut node_list: Vec<DomNode> = Vec::new();
    node_child_match(node_obj, node_ptn, &mut node_list, recursive);
    assert(dom::views(node_list@) =~= Seq::<NodeV>::empty() + matches_in(
        node_obj@.children,
        node_ptn@,
        recursive,
    ));
    node_list
}

fn node_child_match(
    node_obj: &DomNode,
    node_ptn: &DomNode,
    node_list: &mut Vec<DomNode>,
    recursive: bool,
)
    ensures
        dom::views(final(node_list)@) == dom::views(old(node_list)@) + matches_in(
            node_obj@.children,
            node_ptn@,
            recursive,
        ),
    decreases node_obj,
{
    let ghost cs = node_obj@.children;
    proof {
        dom::lemma_children_view(*node_obj);
    }
    let mut i: usize = 0;
    while i < node_obj.children.len()
        invariant
            i <= node_obj.children.len(),
            cs == node_obj@.children,
            cs == dom::views(node_obj.children@),
            dom::views(node_list@) == dom::views(old(node_list)@) + matches_in(
                cs.subrange(0, i as int),
                node_ptn@,
                recursive,
            ),
        decreases node_obj.children.len() - i,
    {
        let ghost before = dom::views(node_list@);
        let child = &node_obj.children[i];
        assert(cs[i as int] == child@);
        if element_match(child, node_ptn) {
            node_list.push(child.deep_clone());
            assert(dom::views(node_list@) =~= before.push(child@));
        }
        let ghost mid = dom::views(node_list@);
        if recursive {
            proof {
                assert(decreases_to!(*node_obj => node_obj.children));
                vstd::std_specs::vec::axiom_vec_index_decreases(node_obj.children, i as int);
            }
            node_child_match(child, node_ptn, node_list, recursive);
        }
        proof {
            assert(cs.subrange(0, i + 1) =~= cs.subrange(0, i as int).push(child@));
            lemma_matches_in_push(cs.subrange(0, i as int), child@, node_ptn@, recursive);
            if element_match_spec(child@, node_ptn@) {
                assert(mid =~= before + seq![child@]);
            } else {
                assert(mid =~= before);
            }
            assert(dom::views(node_list@) =~= dom::views(old(node_list)@) + matches_in(
                cs.subrange(0, i + 1),
                node_ptn@,
                recursive,
            ));
        }
        i = i + 1;
    }
    assert(cs.subrange(0, i as int) =~= cs);
}

fn element_match(node: &DomNode, node_ptn: &DomNode) -> (r: bool)
    ensures
        r == element_match_spec(node@, node_ptn@),
{
    match &node.data {
        NodeKind::Element { name, attrs } => {
            let name_org = name;
            let attrs_org = attrs;
            match &node_ptn.data {
                NodeKind::Element { name, attrs } => {
                    if name_org.local == name.local {
                        return attrs_match(attrs_org, attrs);
                    }
                    false
                },
                _ => false,
            }
        },
        _ => false,
    }
}

/// The position of the first attribute with local name `local`.
pub fn attr_position(attrs: &Vec<Attr>, local: &String) -> (r: Option<usize>)
    ensures
        r matches Some(i) ==> attr_pos(dom::attrs_view(attrs@), local@) == i && i < attrs.len(),
        r is None ==> attr_pos(dom::attrs_view(attrs@), local@) == -1,
{
    let ghost a = dom::attrs_view(attrs@);
    let mut i: usize = 0;
    while i < attrs.len()
        invariant
            i <= attrs.len(),
            a == dom::attrs_view(attrs@),
            forall|j: int| 0 <= j < i ==> (#[trigger] a[j]).name.local != local@,
        decreases attrs.len() - i,
    {
        assert(a[i as int] == attrs@[i as int]@);
        if attrs[i].name.local == *local {
            proof {
                lemma_attr_pos_at(a, local@, i as int);
            }
            return Some(i);
        }
        i = i + 1;
    }
    proof {
        lemma_attr_pos(a, local@);
    }
    None
}

fn attrs_match(attrs: &Vec<Attr>, attrs_ptn: &Vec<Attr>) -> (r: bool)
    ensures
        r == attrs_match_spec(dom::attrs_view(attrs@), dom::attrs_view(attrs_ptn@)),
{
    let ghost a = dom::attrs_view(attrs@);
    let ghost p = dom::attrs_view(attrs_ptn@);
    if attrs_ptn.len() == 0 {
        return true;
    }
    let mut k: usize = 0;
    while k < attrs_ptn.len()
        invariant
            k <= attrs_ptn.len(),
            a == dom::attrs_view(attrs@),
            p == dom::attrs_view(attrs_ptn@),
            forall|j: int|
                0 <= j < k ==> attr_pos(a, (#[trigger] p[j]).name.local) >= 0 && a[attr_pos(
                    a,
                    p[j].name.local,
                )].value == p[j].value,
        decreases attrs_ptn.len() - k,
    {
        let att_for = &attrs_ptn[k];
        assert(p[k as int] == att_for@);
        match attr_position(attrs, &att_for.name.local) {
            Some(i) => {
                if att_for.value != attrs[i].value {
                    assert(a[i as int] == attrs@[i as int]@);
                    assert(!(attr_pos(a, p[k as int].name.local) >= 0 && a[attr_pos(
                        a,
                        p[k as int].name.local,
                    )].value == p[k as int].value));
                    return false;
                }
            },
            None => {
                assert(!(attr_pos(a, p[k as int].name.local) >= 0));
                return false;
            },
        }
        k = k + 1;
    }
    true
}

/// Whether the node or one of its descendants matches the pattern.
pub open spec fn has_match_at(c: NodeV, ptn: NodeV) -> bool
    decreases c, 1int,
{
    element_match_spec(c, ptn) || first_in(c.children, ptn) >= 0
}

/// The position of the first node among `cs` that matches the pattern or
/// has a descendant that does; -1 when there is none.
pub open spec fn first_in(cs: Seq<NodeV>, ptn: NodeV) -> int
    decreases cs, 0int,
{
    if cs.len() == 0 {
        -1
    } else {
        let p = first_in(cs.subrange(0, cs.len() - 1), ptn);
        if p >= 0 {
            p
        } else if has_match_at(cs[cs.len() - 1], ptn) {
            cs.len() - 1
        } else {
            -1
        }
    }
}

pub proof fn lemma_first_in(cs: Seq<NodeV>, ptn: NodeV)
    ensures
        -1 <= first_in(cs, ptn) < cs.len(),
        first_in(cs, ptn) >= 0 ==> has_match_at(cs[first_in(cs, ptn)], ptn),
        first_in(cs, ptn) >= 0 ==> forall|i: int|
            0 <= i < first_in(cs, ptn) ==> !has_match_at(#[trigger] cs[i], ptn),
        first_in(cs, ptn) < 0 ==> forall|i: int|
            0 <= i < cs.len() ==> !has_match_at(#[trigger] cs[i], ptn),
    decreases cs.len(),
{
    if cs.len() > 0 {
        let d = cs.subrange(0, cs.len() - 1);
        lemma_first_in(d, ptn);
        assert(forall|i: int| 0 <= i < d.len() ==> d[i] == cs[i]);
    }
}

proof fn lemma_first_in_at(cs: Seq<NodeV>, ptn: NodeV, i: int)
    requires
        0 <= i < cs.len(),
        has_match_at(cs[i], ptn),
        forall|j: int| 0 <= j < i ==> !has_match_at(#[trigger] cs[j], ptn),
    ensures
        first_in(cs, ptn) == i,
    decreases cs.len(),
{
    let d = cs.subrange(0, cs.len() - 1);
    assert(forall|j: int| 0 <= j < d.len() ==> d[j] == cs[j]);
    if i < cs.len() - 1 {
        lemma_first_in_at(d, ptn, i);
    } else {
        lemma_first_in(d, ptn);
    }
}

/// Attributes and children to append to an element.
pub struct Edit {
    pub attrs: Vec<Attr>,
    pub children: Vec<DomNode>,
}

/// The view of an `Edit`.
pub struct EditV {
    pub attrs: Seq<AttrV>,
    pub children: Seq<NodeV>,
}

impl View for Edit {
    type V = EditV;

    open spec fn view(&self) -> EditV {
        EditV { attrs: dom::attrs_view(self.attrs@), children: dom::views(self.children@) }
    }
}

/// The node with the attributes (when it is an element) and children of
/// the edit appended.
pub open spec fn apply_edit(c: NodeV, e: EditV) -> NodeV {
    NodeV {
        data: match c.data {
            DataV::Element { name, attrs } => DataV::Element { name, attrs: attrs + e.attrs },
            d => d,
        },
        children: c.children + e.children,
    }
}

/// The tree with the edit applied to its first node, in document order,
/// that matches the pattern.
pub open spec fn edit_at(c: NodeV, ptn: NodeV, e: EditV) -> NodeV
    decreases c,
{
    if element_match_spec(c, ptn) {
        apply_edit(c, e)
    } else {
        NodeV { data: c.data, children: edit_in(c.children, ptn, e) }
    }
}

/// The trees with the edit applied to the first node, in document order,
/// that matches the pattern; unchanged when none does.
pub open spec fn edit_in(cs: Seq<NodeV>, ptn: NodeV, e: EditV) -> Seq<NodeV>
    decreases cs,
{
    let k = first_in(cs, ptn);
    if 0 <= k < cs.len() {
        cs.update(k, edit_at(cs[k], ptn, e))
    } else {
        cs
    }
}

/// Editing keeps trees free of `Document` nodes when the added children are.
pub proof fn lemma_edit_doc_free(cs: Seq<NodeV>, ptn: NodeV, e: EditV)
    requires
        dom::doc_free_in(cs),
        dom::doc_free_in(e.children),
    ensures
        dom::doc_free_in(edit_in(cs, ptn, e)),
    decreases cs,
{
    let k = first_in(cs, ptn);
    dom::lemma_doc_free_in(cs);
    if 0 <= k < cs.len() {
        let c = cs[k];
        assert(dom::doc_free(c));
        dom::lemma_doc_free_in(c.children);
        dom::lemma_doc_free_in(e.children);
        if !element_match_spec(c, ptn) {
            lemma_edit_doc_free(c.children, ptn, e);
        } else {
            dom::lemma_doc_free_in(c.children + e.children);
        }
        let r = cs.update(k, edit_at(c, ptn, e));
        assert forall|i: int| 0 <= i < r.len() implies dom::doc_free(#[trigger] r[i]) by {
            if i != k {
                assert(dom::doc_free(cs[i]));
            }
        }
        dom::lemma_doc_free_in(r);
    }
}

/// Whether the node or one of its descendants matches the pattern.
pub fn has_match(n: &DomNode, ptn: &DomNode) -> (r: bool)
    ensures
        r == has_match_at(n@, ptn@),
    decreases n,
{
    if element_match(n, ptn) {
        return true;
    }
    proof {
        dom::lemma_children_view(*n);
        assert(decreases_to!(*n => n.children));
    }
    first_match(&n.children, ptn).is_some()
}

/// The position of the first of the nodes that matches the pattern or has
/// a descendant that does.
pub fn first_match(cs: &Vec<DomNode>, ptn: &DomNode) -> (r: Option<usize>)
    ensures
        r matches Some(k) ==> first_in(dom::views(cs@), ptn@) == k,
        r is None ==> first_in(dom::views(cs@), ptn@) == -1,
    decreases cs,
{
    let ghost v = dom::views(cs@);
    let mut i: usize = 0;
    while i < cs.len()
        invariant
            i <= cs.len(),
            v == dom::views(cs@),
            forall|j: int| 0 <= j < i ==> !has_match_at(#[trigger] v[j], ptn@),
        decreases cs.len() - i,
    {
        proof {
            vstd::std_specs::vec::axiom_vec_index_decreases(*cs, i as int);
        }
        assert(v[i as int] == cs@[i as int]@);
        if has_match(&cs[i], ptn) {
            proof {
                lemma_first_in_at(v, ptn@, i as int);
            }
            return Some(i);
        }
        i = i + 1;
    }
    proof {
        lemma_first_in(v, ptn@);
        if first_in(v, ptn@) >= 0 {
            assert(has_match_at(v[first_in(v, ptn@)], ptn@));
        }
    }
    None
}

fn apply_edit_exec(c: &mut DomNode, e: &Edit)
    ensures
        final(c)@ == apply_edit(old(c)@, e@),
{
    let mut d = NodeKind::Document;
    std::mem::swap(&mut d, &mut c.data);
    let d2 = match d {
        NodeKind::Element { name, mut attrs } => {
            let ghost a0 = dom::attrs_view(attrs@);
            let mut i: usize = 0;
            while i < e.attrs.len()
                invariant
                    i <= e.attrs.len(),
                    dom::attrs_view(attrs@) == a0 + dom::attrs_view(e.attrs@).subrange(0, i as int),
                decreases e.attrs.len() - i,
            {
                let a = Attr { name: dom::clone_name(&e.attrs[i].name), value: e.attrs[i].value.clone() };
                assert(a@ == e.attrs@[i as int]@);
                let ghost before = attrs@;
                attrs.push(a);
                assert(attrs@ == before.push(a));
                assert(dom::attrs_view(attrs@) =~= dom::attrs_view(before).push(a@));
                assert(dom::attrs_view(attrs@) =~= a0 + dom::attrs_view(e.attrs@).subrange(0, i + 1));
                i = i + 1;
            }
            assert(dom::attrs_view(e.attrs@).subrange(0, i as int) =~= dom::attrs_view(e.attrs@));
            NodeKind::Element { name, attrs }
        },
        other => other,
    };
    c.data = d2;
    assert(c.data@ == apply_edit(old(c)@, e@).data);
    let ghost c0 = dom::views(c.children@);
    let ghost dv = c.data@;
    let mut i: usize = 0;
    while i < e.children.len()
        invariant
            i <= e.children.len(),
            c.data@ == dv,
            dom::views(c.children@) == c0 + dom::views(e.children@).subrange(0, i as int),
        decreases e.children.len() - i,
    {
        let n = e.children[i].deep_clone();
        let ghost before = c.children@;
        c.children.push(n);
        assert(c.children@ == before.push(n));
        assert(dom::views(c.children@) =~= dom::views(before).push(n@));
        assert(dom::views(c.children@) =~= c0 + dom::views(e.children@).subrange(0, i + 1));
        i = i + 1;
    }
    assert(dom::views(e.children@).subrange(0, i as int) =~= dom::views(e.children@));
    proof {
        dom::lemma_children_view(*c);
        dom::lemma_children_view(*old(c));
    }
}

fn edit_node(c: &mut DomNode, ptn: &DomNode, e: &Edit)
    ensures
        final(c)@ == edit_at(old(c)@, ptn@, e@),
    decreases *old(c),
{
    if element_match(c, ptn) {
        apply_edit_exec(c, e);
    } else {
        proof {
            dom::lemma_children_view(*c);
            assert(decreases_to!(*old(c) => old(c).children));
        }
        edit_first_in(&mut c.children, ptn, e);
        proof {
            dom::lemma_children_view(*c);
        }
    }
}

/// Applies the edit to the first node, in document order, that matches the
/// pattern.
pub fn edit_first_in(cs: &mut Vec<DomNode>, ptn: &DomNode, e: &Edit)
    ensures
        dom::views(final(cs)@) == edit_in(dom::views(old(cs)@), ptn@, e@),
    decreases *old(cs),
{
    let ghost v = dom::views(cs@);
    match first_match(cs, ptn) {
        Some(k) => {
            proof {
                lemma_first_in(v, ptn@);
                vstd::std_specs::vec::axiom_vec_index_decreases(*old(cs), k as int);
            }
            let mut c = cs.remove(k);
            assert(c@ == v[k as int]);
            edit_node(&mut c, ptn, e);
            let ghost ce = c@;
            cs.insert(k, c);
            assert(dom::views(cs@) =~= v.update(k as int, ce));
        },
        None => {},
    }
}

/// The pattern of the element that holds page data written as a script.
pub open spec fn page_json_div_ptn() -> NodeV {
    node_element_spec("div"@, seq![attr_spec("class"@, "page_json"@)])
}

/// The page data held as `let page_json = {...}` in the first text child
/// of the first `<div class="page_json">`: the text with every
/// `let page_json = ` taken out, parsed; `None` when there is no such
/// element, its first child is no text, or the text does not parse.
pub open spec fn json_in_javascript_spec(doc: NodeV) -> Option<JVal> {
    let l = matches_in(doc.children, page_json_div_ptn(), true);
    if l.len() == 0 || l[0].children.len() == 0 {
        None
    } else {
        match l[0].children[0].data {
            DataV::Text { contents } => jvalue::json_parse_spec(
                text::replace_spec(contents, "let page_json = "@, Seq::empty()),
            ),
            _ => None,
        }
    }
}

/// Reads page data written as a script into the document.
pub fn json_in_javascript(dom: &DomNode) -> (r: Result<Json, ()>)
    ensures
        r matches Ok(v) ==> json_in_javascript_spec(dom@) == Some(v@),
        r is Err ==> json_in_javascript_spec(dom@) is None,
{
    let node_json_ptn = node_element("div", &vec![("class", "page_json")]);
    assert(node_json_ptn@ =~= page_json_div_ptn()) by {
        assert(node_json_ptn@.data->Element_attrs =~= seq![attr_spec("class"@, "page_json"@)]);
    }
    let list = child_match_list(dom, &node_json_ptn, true);
    if list.len() < 1 {
        return Err(());
    }
    assert(list@[0]@ == dom::views(list@)[0]);
    let first = &list[0];
    proof {
        dom::lemma_children_view(*first);
    }
    if first.children.len() < 1 {
        return Err(());
    }
    assert(first@.children[0] == first.children@[0]@);
    match &first.children[0].data {
        NodeKind::Text { contents } => {
            proof {
                reveal_strlit("let page_json = ");
                reveal_strlit("");
                assert(""@ =~= Seq::<char>::empty());
            }
            let js = text::replace(contents.as_str(), "let page_json = ", "");
            match jvalue::parse(js.as_str()) {
                Some(page_json) => Ok(page_json),
                None => Err(()),
            }
        },
        _ => Err(()),
    }
}

/// `&lt;` and `&gt;` read as the characters they stand for; every other
/// match left as it is.
pub open spec fn entity_replacement_spec(er: Seq<char>) -> Seq<char> {
    if er == "&lt;"@ {
        "<"@
    } else if er == "&gt;"@ {
        ">"@
    } else {
        er
    }
}

/// The pattern of the entity references that `entity_reference_unset` reads.
pub const ENTITY_PATTERN: &'static str = "(&(?:(?:lt)|(?:gt));)";

/// What `entity_reference_unset` makes of the text from byte `pos` on: as
/// the regex crate's `replace_all` goes through the matches of
/// `ENTITY_PATTERN` in turn, each match searched from the end of the one
/// before, the text up to a match is kept and the match is replaced by
/// `entity_replacement_spec` of it.  (The pattern never matches an empty
/// text; were it to, the rest would be kept as it is.)
pub open spec fn entity_unset_spec(s: Seq<char>, pos: int) -> Seq<char>
    decreases encode_utf8(s).len() - pos,
{
    let len = encode_utf8(s).len() as int;
    if pos < 0 || pos > len {
        Seq::empty()
    } else {
        match crate::pattern::regex_find_spec(ENTITY_PATTERN@, s, pos) {
            Some((a, b)) => if pos <= a < b <= len {
                bytes_text(s, pos, a) + entity_replacement_spec(bytes_text(s, a, b)) + entity_unset_spec(s, b)
            } else {
                bytes_text(s, pos, len)
            },
            None => bytes_text(s, pos, len),
        }
    }
}

/// The text with the entity references `&lt;` and `&gt;` turned into `<`
/// and `>`.
pub fn entity_reference_unset(s: &str) -> (r: String)
    ensures
        r@ == entity_unset_spec(s@, 0),
{
    let ghost bytes = s.spec_bytes();
    proof {
        text::lemma_bytes_valid(s@);
    }
    let len = s.as_bytes().len();
    assert(len == bytes.len());
    let mut out = String::new();
    let mut pos: usize = 0;
    assert(out@ + entity_unset_spec(s@, 0) =~= entity_unset_spec(s@, 0));
    loop
        invariant
            pos <= len,
            len == bytes.len(),
            bytes == s.spec_bytes(),
            bytes == encode_utf8(s@),
            valid_utf8(bytes),
            is_char_boundary(bytes, pos as int),
            out@ + entity_unset_spec(s@, pos as int) == entity_unset_spec(s@, 0),
        decreases len - pos,
    {
        let m = crate::pattern::find_at(ENTITY_PATTERN, s, pos);
        let nonempty = match m {
            Some(x) => x.0 < x.1,
            None => false,
        };
        if !nonempty {
            let rest = text::suffix(s, pos);
            proof {
                text::lemma_bytes_valid(rest@);
                assert(rest@ == bytes_text(s@, pos as int, len as int));
            }
            out.append(rest);
            return out;
        }
        let (a, b) = match m {
            Some(x) => x,
            None => (pos, pos),
        };
        let pre = text::substr(s, pos, a);
        let mid = text::substr(s, a, b);
        proof {
            text::lemma_bytes_valid(pre@);
            text::lemma_bytes_valid(mid@);
            assert(pre@ == bytes_text(s@, pos as int, a as int));
            assert(mid@ == bytes_text(s@, a as int, b as int));
        }
        let rep = entity_reference_replacement(mid);
        let ghost before = out@;
        out.append(pre);
        out.append(rep.as_str());
        assert(out@ + entity_unset_spec(s@, b as int) =~= before + entity_unset_spec(s@, pos as int));
        pos = b;
    }
}

/// What an entity reference is replaced by.
pub fn entity_reference_replacement(er: &str) -> (r: String)
    ensures
        r@ == entity_replacement_spec(er@),
{
    match entity_reference_to_str(er) {
        Some(s) => String::from_str(s),
        None => String::from_str(er),
    }
}

/// The character that `&lt;` or `&gt;` stands for.
fn entity_reference_to_str(er: &str) -> (r: Option<&'static str>)
    ensures
        er@ == "&lt;"@ ==> (r matches Some(s) && s@ == "<"@),
        er@ == "&gt;"@ ==> (r matches Some(s) && s@ == ">"@),
        er@ != "&lt;"@ && er@ != "&gt;"@ ==> r is None,
{
    proof {
        reveal_strlit("&lt;");
        reveal_strlit("&gt;");
        assert("&lt;"@[1] != "&gt;"@[1]);
    }
    if text::str_eq(er, "&lt;") {
        return Some("<");
    }
    if text::str_eq(er, "&gt;") {
        return Some(">");
    }
    None
}

} // verus!
