//! What holds of the search in trees of elements.
use vstd::prelude::*;

use crate::xml::{
    attr, attr_from, attr_or, child, child_attr, element_from, first_element, tagged_from,
    AttrModel, XmlKind, XmlModel,
};

verus! {

/// The node at `k` is the first element of the list with the given tag.
pub open spec fn is_first_tagged(nodes: Seq<XmlModel>, tag: Seq<char>, k: int) -> bool {
    &&& 0 <= k < nodes.len()
    &&& nodes[k].kind == XmlKind::Element
    &&& nodes[k].tag == tag
    &&& forall|j: int|
        0 <= j < k ==> !((#[trigger] nodes[j]).kind == XmlKind::Element && nodes[j].tag == tag)
}

/// No element of the list has the given tag.
pub open spec fn has_no_tagged(nodes: Seq<XmlModel>, tag: Seq<char>) -> bool {
    forall|j: int|
        0 <= j < nodes.len() ==> !((#[trigger] nodes[j]).kind == XmlKind::Element && nodes[j].tag
            == tag)
}

proof fn lemma_tagged_from(nodes: Seq<XmlModel>, tag: Seq<char>, i: int) -> (k: int)
    requires
        0 <= i <= nodes.len(),
    ensures
        match tagged_from(nodes, tag, i) {
            Some(c) => i <= k < nodes.len() && nodes[k] == c && c.kind == XmlKind::Element && c.tag
                == tag && forall|j: int|
                i <= j < k ==> !((#[trigger] nodes[j]).kind == XmlKind::Element && nodes[j].tag
                    == tag),
            None => forall|j: int|
                i <= j < nodes.len() ==> !((#[trigger] nodes[j]).kind == XmlKind::Element
                    && nodes[j].tag == tag),
        },
    decreases nodes.len() - i,
{
    if i < nodes.len() && !(nodes[i].kind == XmlKind::Element && nodes[i].tag == tag) {
        lemma_tagged_from(nodes, tag, i + 1)
    } else {
        i
    }
}

/// The child with a tag is the first element in the node with that tag, and there is
/// none only where no element in the node has the tag.
pub proof fn law_child(n: XmlModel, tag: Seq<char>) -> (k: int)
    ensures
        match child(n, tag) {
            Some(c) => is_first_tagged(n.children, tag, k) && c == n.children[k],
            None => has_no_tagged(n.children, tag),
        },
{
    lemma_tagged_from(n.children, tag, 0)
}

/// The first element with a tag is the child.
pub proof fn law_child_is(n: XmlModel, tag: Seq<char>, k: int)
    requires
        is_first_tagged(n.children, tag, k),
    ensures
        child(n, tag) == Some(n.children[k]),
{
    let j = law_child(n, tag);
    assert(n.children[k].tag == tag);
    if j < k {
        assert(n.children[j].kind == XmlKind::Element);
    }
}

proof fn lemma_element_from(nodes: Seq<XmlModel>, i: int) -> (k: int)
    requires
        0 <= i <= nodes.len(),
    ensures
        match element_from(nodes, i) {
            Some(c) => i <= k < nodes.len() && nodes[k] == c && c.kind == XmlKind::Element
                && forall|j: int| i <= j < k ==> (#[trigger] nodes[j]).kind != XmlKind::Element,
            None => forall|j: int|
                i <= j < nodes.len() ==> (#[trigger] nodes[j]).kind != XmlKind::Element,
        },
    decreases nodes.len() - i,
{
    if i < nodes.len() && nodes[i].kind != XmlKind::Element {
        lemma_element_from(nodes, i + 1)
    } else {
        i
    }
}

/// The first element in a node is the first that is no text and no comment.
pub proof fn law_first_element(n: XmlModel) -> (k: int)
    ensures
        match first_element(n) {
            Some(c) => 0 <= k < n.children.len() && c == n.children[k] && c.kind
                == XmlKind::Element && forall|j: int|
                0 <= j < k ==> (#[trigger] n.children[j]).kind != XmlKind::Element,
            None => forall|j: int|
                0 <= j < n.children.len() ==> (#[trigger] n.children[j]).kind != XmlKind::Element,
        },
{
    lemma_element_from(n.children, 0)
}

proof fn lemma_attr_from(attrs: Seq<AttrModel>, name: Seq<char>, i: int) -> (k: int)
    requires
        0 <= i <= attrs.len(),
    ensures
        match attr_from(attrs, name, i) {
            Some(v) => i <= k < attrs.len() && attrs[k].value == v && attrs[k].name == name
                && !attrs[k].namespaced && forall|j: int|
                i <= j < k ==> (#[trigger] attrs[j]).name != name || attrs[j].namespaced,
            None => forall|j: int|
                i <= j < attrs.len() ==> (#[trigger] attrs[j]).name != name || attrs[j].namespaced,
        },
    decreases attrs.len() - i,
{
    if i < attrs.len() && (attrs[i].name != name || attrs[i].namespaced) {
        lemma_attr_from(attrs, name, i + 1)
    } else {
        i
    }
}

/// The value of an attribute is that of the first with the name and without a namespace.
/// Where there is none, the default takes its place.
pub proof fn law_attr(n: XmlModel, name: Seq<char>, default: Seq<char>) -> (k: int)
    ensures
        match attr(n, name) {
            Some(v) => 0 <= k < n.attrs.len() && n.attrs[k].value == v && n.attrs[k].name == name
                && !n.attrs[k].namespaced && (forall|j: int|
                0 <= j < k ==> (#[trigger] n.attrs[j]).name != name || n.attrs[j].namespaced)
                && attr_or(n, name, default) == v,
            None => (forall|j: int|
                0 <= j < n.attrs.len() ==> (#[trigger] n.attrs[j]).name != name
                    || n.attrs[j].namespaced) && attr_or(n, name, default) == default,
        },
{
    lemma_attr_from(n.attrs, name, 0)
}

/// The value of an attribute of a child is that of the first element in the node with
/// the tag, and of no other.
pub proof fn law_child_attr(n: XmlModel, tag: Seq<char>, name: Seq<char>) -> (k: int)
    ensures
        match child_attr(n, tag, name) {
            Some(v) => is_first_tagged(n.children, tag, k) && attr(n.children[k], name) == Some(v),
            None => has_no_tagged(n.children, tag) || (is_first_tagged(n.children, tag, k) && attr(
                n.children[k],
                name,
            ) is None),
        },
{
    law_child(n, tag)
}

} // verus!
