//! XML documents as trees of elements and texts.
use vstd::prelude::*;

use crate::markup::{flat, law_tree_of_records, writes};
use crate::text::{opt_text, same_text};

verus! {

// ---------------------------------------------------------------------------
// Types
// ---------------------------------------------------------------------------

/// What kind of node stands in the tree. `Other` is a comment or an instruction.
#[derive(Debug, Clone, Copy, PartialEq, Eq, Structural)]
pub enum XmlKind {
    Element,
    Text,
    Other,
}

/// An attribute of an element.
#[derive(Debug)]
pub struct XmlAttr {
    /// The name without its prefix.
    pub name: String,
    pub value: String,
    /// Whether the name belongs to a namespace.
    pub namespaced: bool,
}

/// A node at its depth in the document.
#[derive(Debug)]
pub struct XmlRecord {
    pub depth: usize,
    pub kind: XmlKind,
    pub tag: String,
    pub attrs: Vec<XmlAttr>,
    pub text: Option<String>,
}

/// A node with the nodes in it.
#[derive(Debug)]
pub struct XmlNode {
    pub kind: XmlKind,
    /// The name without its prefix, empty unless the node is an element.
    pub tag: String,
    pub attrs: Vec<XmlAttr>,
    /// The text of a text or a comment, or the text that an element begins with.
    pub text: Option<String>,
    pub children: Vec<XmlNode>,
}

/// What an `XmlAttr` holds.
#[verifier::ext_equal]
pub struct AttrModel {
    pub name: Seq<char>,
    pub value: Seq<char>,
    pub namespaced: bool,
}

/// What an `XmlRecord` holds.
#[verifier::ext_equal]
pub struct RecordModel {
    pub depth: int,
    pub kind: XmlKind,
    pub tag: Seq<char>,
    pub attrs: Seq<AttrModel>,
    pub text: Option<Seq<char>>,
}

/// What an `XmlNode` holds.
#[verifier::ext_equal]
pub struct XmlModel {
    pub kind: XmlKind,
    pub tag: Seq<char>,
    pub attrs: Seq<AttrModel>,
    pub text: Option<Seq<char>>,
    pub children: Seq<XmlModel>,
}

impl View for XmlAttr {
    type V = AttrModel;

    open spec fn view(&self) -> AttrModel {
        AttrModel { name: self.name@, value: self.value@, namespaced: self.namespaced }
    }
}

/// What each attribute of a list holds.
pub open spec fn attr_models(list: Seq<XmlAttr>) -> Seq<AttrModel> {
    list.map_values(|a: XmlAttr| a@)
}

impl View for XmlRecord {
    type V = RecordModel;

    open spec fn view(&self) -> RecordModel {
        RecordModel {
            depth: self.depth as int,
            kind: self.kind,
            tag: self.tag@,
            attrs: attr_models(self.attrs@),
            text: opt_text(self.text),
        }
    }
}

/// What each node of a list of records holds.
pub open spec fn record_models(list: Seq<XmlRecord>) -> Seq<RecordModel> {
    list.map_values(|r: XmlRecord| r@)
}

impl XmlNode {
    /// What the node holds.
    pub open spec fn model(self) -> XmlModel
        decreases self,
    {
        XmlModel {
            kind: self.kind,
            tag: self.tag@,
            attrs: attr_models(self.attrs@),
            text: opt_text(self.text),
            children: Seq::new(
                self.children@.len(),
                |i: int|
                    if 0 <= i < self.children@.len() {
                        self.children@[i].model()
                    } else {
                        arbitrary()
                    },
            ),
        }
    }
}

/// What each node of a list holds.
pub open spec fn node_models(list: Seq<XmlNode>) -> Seq<XmlModel> {
    list.map_values(|n: XmlNode| n.model())
}

// ---------------------------------------------------------------------------
// Parsing
// ---------------------------------------------------------------------------

/// The root element of a document and the nodes in it, each before those in it,
/// as `roxmltree` reads the text; or the message of its error.
pub uninterp spec fn xml_records(xml: Seq<char>) -> Result<Seq<RecordModel>, Seq<char>>;

/// `roxmltree::Document::parse`, the nodes of the tree handed out one by one,
/// parents first, each with its depth. The result depends on the text alone, and
/// is named. A document that was read has a root element. The document that writes an
/// element is read, and its nodes are that element and those in it: a name, a text and
/// the value of an attribute are read as they were before they were escaped.
#[verifier::external_body]
pub(crate) fn parse_records(xml: &str) -> (out: Result<Vec<XmlRecord>, String>)
    ensures
        match out {
            Ok(list) => xml_records(xml@) == Ok::<Seq<RecordModel>, Seq<char>>(
                record_models(list@),
            ) && list@.len() > 0,
            Err(e) => xml_records(xml@) == Err::<Seq<RecordModel>, Seq<char>>(e@),
        },
        forall|root: XmlModel|
            #![trigger writes(xml@, root)]
            writes(xml@, root) ==> match out {
                Ok(list) => record_models(list@) == flat(root, 2),
                Err(_) => false,
            },
{
    let doc = roxmltree::Document::parse(xml).map_err(|e| e.to_string())?;
    Ok(doc.root_element().descendants().map(|n| XmlRecord {
        depth: n.ancestors().count(),
        kind: match n.node_type() {
            roxmltree::NodeType::Element => XmlKind::Element,
            roxmltree::NodeType::Text => XmlKind::Text,
            _ => XmlKind::Other,
        },
        tag: n.tag_name().name().to_string(),
        attrs: n.attributes().map(|a| XmlAttr {
            name: a.name().to_string(), value: a.value().to_string(), namespaced: a.namespace().is_some(),
        }).collect(),
        text: n.text().map(str::to_string),
    }).collect())
}

/// The nodes at `pos` and behind that stand deeper than `depth`, as trees, and
/// the index of the first record behind them.
pub open spec fn forest(records: Seq<RecordModel>, pos: int, depth: int) -> (Seq<XmlModel>, int)
    decreases records.len() - pos,
    when 0 <= pos <= records.len()
{
    if pos >= records.len() {
        (Seq::empty(), records.len() as int)
    } else if records[pos].depth <= depth {
        (Seq::empty(), pos)
    } else {
        let r = records[pos];
        let inner = forest(records, pos + 1, r.depth);
        if pos < inner.1 <= records.len() {
            let node = XmlModel {
                kind: r.kind,
                tag: r.tag,
                attrs: r.attrs,
                text: r.text,
                children: inner.0,
            };
            let rest = forest(records, inner.1, depth);
            (seq![node] + rest.0, rest.1)
        } else {
            arbitrary()
        }
    }
}

/// The tree whose root is the first record.
pub open spec fn tree(records: Seq<RecordModel>) -> XmlModel {
    XmlModel {
        kind: records[0].kind,
        tag: records[0].tag,
        attrs: records[0].attrs,
        text: records[0].text,
        children: forest(records, 1, records[0].depth).0,
    }
}

/// The root element of a document, or the message of the error.
pub open spec fn document(xml: Seq<char>) -> Result<XmlModel, Seq<char>> {
    match xml_records(xml) {
        Ok(records) => Ok(tree(records)),
        Err(e) => Err(e),
    }
}

/// `forest` ends within the records.
pub proof fn lemma_forest_end(records: Seq<RecordModel>, pos: int, depth: int)
    requires
        0 <= pos <= records.len(),
    ensures
        pos <= forest(records, pos, depth).1 <= records.len(),
    decreases records.len() - pos,
{
    if pos < records.len() && records[pos].depth > depth {
        lemma_forest_end(records, pos + 1, records[pos].depth);
        lemma_forest_end(records, forest(records, pos + 1, records[pos].depth).1, depth);
    }
}

/// A copy of a list of attributes.
fn copy_attrs(list: &Vec<XmlAttr>) -> (out: Vec<XmlAttr>)
    ensures
        attr_models(out@) == attr_models(list@),
{
    let mut out: Vec<XmlAttr> = Vec::new();
    for i in 0..list.len()
        invariant
            attr_models(out@) == attr_models(list@).take(i as int),
    {
        let ghost before = attr_models(out@);
        let a = XmlAttr {
            name: list[i].name.clone(),
            value: list[i].value.clone(),
            namespaced: list[i].namespaced,
        };
        out.push(a);
        assert(attr_models(out@) =~= before.push(list@[i as int]@));
        assert(attr_models(list@).take(i + 1) =~= before.push(list@[i as int]@));
    }
    assert(attr_models(list@).take(list@.len() as int) =~= attr_models(list@));
    out
}

/// The node of a record with the given nodes in it.
fn node_of(r: &XmlRecord, children: Vec<XmlNode>) -> (out: XmlNode)
    ensures
        out.model() == (XmlModel {
            kind: r.kind,
            tag: r.tag@,
            attrs: attr_models(r.attrs@),
            text: opt_text(r.text),
            children: node_models(children@),
        }),
{
    let out = XmlNode {
        kind: r.kind,
        tag: r.tag.clone(),
        attrs: copy_attrs(&r.attrs),
        text: crate::text::copy_opt(&r.text),
        children,
    };
    assert(out.model().children =~= node_models(children@));
    out
}

/// The nodes at `pos` and behind that stand deeper than `depth`, as trees, and
/// the index of the first record behind them.
fn build_forest(records: &Vec<XmlRecord>, pos: usize, depth: usize) -> (out: (Vec<XmlNode>, usize))
    requires
        pos <= records@.len(),
    ensures
        (node_models(out.0@), out.1 as int) == forest(
            record_models(records@),
            pos as int,
            depth as int,
        ),
        pos <= out.1 <= records@.len(),
    decreases records@.len() - pos,
{
    let ghost all = record_models(records@);
    let ghost whole = forest(all, pos as int, depth as int);
    let mut nodes: Vec<XmlNode> = Vec::new();
    let mut at: usize = pos;
    proof {
        lemma_forest_end(all, pos as int, depth as int);
        assert(node_models(nodes@) + whole.0 =~= whole.0);
    }
    while at < records.len() && records[at].depth > depth
        invariant
            all == record_models(records@),
            pos <= at <= records@.len(),
            whole == forest(all, pos as int, depth as int),
            whole.0 == node_models(nodes@) + forest(all, at as int, depth as int).0,
            whole.1 == forest(all, at as int, depth as int).1,
        decreases records@.len() - at,
    {
        let ghost before = node_models(nodes@);
        let ghost here = forest(all, at as int, depth as int);
        proof {
            assert(all[at as int] == records@[at as int]@);
            lemma_forest_end(all, at + 1, all[at as int].depth);
        }
        let (children, next) = build_forest(records, at + 1, records[at].depth);
        let node = node_of(&records[at], children);
        nodes.push(node);
        assert(node_models(nodes@) =~= before.push(node.model()));
        assert(before + here.0 =~= node_models(nodes@) + forest(all, next as int, depth as int).0);
        at = next;
    }
    assert(node_models(nodes@) =~= whole.0);
    (nodes, at)
}

/// The tree whose root is the first record.
pub fn build_tree(records: &Vec<XmlRecord>) -> (out: XmlNode)
    requires
        records@.len() > 0,
    ensures
        out.model() == tree(record_models(records@)),
{
    assert(record_models(records@)[0] == records@[0]@);
    let (children, _next) = build_forest(records, 1, records[0].depth);
    node_of(&records[0], children)
}

/// The root element of a document, or the message of the error.
pub fn parse_document(xml: &str) -> (out: Result<XmlNode, String>)
    ensures
        match out {
            Ok(node) => document(xml@) == Ok::<XmlModel, Seq<char>>(node.model()),
            Err(e) => document(xml@) == Err::<XmlModel, Seq<char>>(e@),
        },
        forall|root: XmlModel|
            #![trigger writes(xml@, root)]
            writes(xml@, root) ==> match out {
                Ok(node) => node.model() == root,
                Err(_) => false,
            },
{
    match parse_records(xml) {
        Ok(records) => {
            proof {
                assert forall|root: XmlModel|
                    #![trigger writes(xml@, root)]
                    writes(xml@, root) implies tree(record_models(records@)) == root by {
                    law_tree_of_records(root, 2);
                }
            }
            Ok(build_tree(&records))
        },
        Err(e) => Err(e),
    }
}

// ---------------------------------------------------------------------------
// Elements and attributes
// ---------------------------------------------------------------------------

/// Whether a node is an element with the given tag.
pub open spec fn is_tagged(n: XmlModel, tag: Seq<char>) -> bool {
    n.kind == XmlKind::Element && n.tag == tag
}

/// The first node at or after `i` that is an element with the given tag.
pub open spec fn tagged_from(nodes: Seq<XmlModel>, tag: Seq<char>, i: int) -> Option<XmlModel>
    decreases nodes.len() - i,
{
    if i >= nodes.len() {
        None
    } else if is_tagged(nodes[i], tag) {
        Some(nodes[i])
    } else {
        tagged_from(nodes, tag, i + 1)
    }
}

/// The first child of `n` that is an element with the given tag.
pub open spec fn child(n: XmlModel, tag: Seq<char>) -> Option<XmlModel> {
    tagged_from(n.children, tag, 0)
}

/// The first node at or after `i` that is an element.
pub open spec fn element_from(nodes: Seq<XmlModel>, i: int) -> Option<XmlModel>
    decreases nodes.len() - i,
{
    if i >= nodes.len() {
        None
    } else if nodes[i].kind == XmlKind::Element {
        Some(nodes[i])
    } else {
        element_from(nodes, i + 1)
    }
}

/// The first child of `n` that is an element.
pub open spec fn first_element(n: XmlModel) -> Option<XmlModel> {
    element_from(n.children, 0)
}

/// The value of the first attribute at or after `i` with the given name, which
/// belongs to no namespace.
pub open spec fn attr_from(attrs: Seq<AttrModel>, name: Seq<char>, i: int) -> Option<Seq<char>>
    decreases attrs.len() - i,
{
    if i >= attrs.len() {
        None
    } else if attrs[i].name == name && !attrs[i].namespaced {
        Some(attrs[i].value)
    } else {
        attr_from(attrs, name, i + 1)
    }
}

/// The value of the attribute of `n` with the given name.
pub open spec fn attr(n: XmlModel, name: Seq<char>) -> Option<Seq<char>> {
    attr_from(n.attrs, name, 0)
}

/// The value of the attribute of `n` with the given name, or `default`.
pub open spec fn attr_or(n: XmlModel, name: Seq<char>, default: Seq<char>) -> Seq<char> {
    match attr(n, name) {
        Some(v) => v,
        None => default,
    }
}

/// The value of an attribute of the first child of `n` with the given tag.
pub open spec fn child_attr(n: XmlModel, tag: Seq<char>, name: Seq<char>) -> Option<Seq<char>> {
    match child(n, tag) {
        Some(c) => attr(c, name),
        None => None,
    }
}

impl XmlNode {
    /// Whether the node is an element with the given tag.
    pub fn has_tag(&self, tag: &str) -> (yes: bool)
        ensures
            yes == is_tagged(self.model(), tag@),
    {
        match self.kind {
            XmlKind::Element => same_text(self.tag.as_str(), tag),
            _ => false,
        }
    }

    /// Whether the node is an element.
    pub fn is_element(&self) -> (yes: bool)
        ensures
            yes == (self.model().kind == XmlKind::Element),
    {
        match self.kind {
            XmlKind::Element => true,
            _ => false,
        }
    }

    /// The first child that is an element with the given tag.
    pub fn child(&self, tag: &str) -> (out: Option<&XmlNode>)
        ensures
            match out {
                Some(n) => child(self.model(), tag@) == Some(n.model()),
                None => child(self.model(), tag@) is None,
            },
    {
        let ghost all = self.model().children;
        for i in 0..self.children.len()
            invariant
                all == self.model().children,
                tagged_from(all, tag@, 0) == tagged_from(all, tag@, i as int),
        {
            assert(all[i as int] == self.children@[i as int].model());
            if self.children[i].has_tag(tag) {
                return Some(&self.children[i]);
            }
        }
        None
    }

    /// The first child that is an element.
    pub fn first_element(&self) -> (out: Option<&XmlNode>)
        ensures
            match out {
                Some(n) => first_element(self.model()) == Some(n.model()),
                None => first_element(self.model()) is None,
            },
    {
        let ghost all = self.model().children;
        for i in 0..self.children.len()
            invariant
                all == self.model().children,
                element_from(all, 0) == element_from(all, i as int),
        {
            assert(all[i as int] == self.children@[i as int].model());
            if self.children[i].is_element() {
                return Some(&self.children[i]);
            }
        }
        None
    }

    /// The value of the attribute with the given name.
    pub fn attribute(&self, name: &str) -> (out: Option<&str>)
        ensures
            crate::text::opt_str(out) == attr(self.model(), name@),
    {
        let ghost all = attr_models(self.attrs@);
        for i in 0..self.attrs.len()
            invariant
                all == attr_models(self.attrs@),
                attr_from(all, name@, 0) == attr_from(all, name@, i as int),
        {
            assert(all[i as int] == self.attrs@[i as int]@);
            if same_text(self.attrs[i].name.as_str(), name) && !self.attrs[i].namespaced {
                return Some(self.attrs[i].value.as_str());
            }
        }
        None
    }

    /// The value of the attribute with the given name.
    pub fn attribute_text(&self, name: &str) -> (out: Option<String>)
        ensures
            opt_text(out) == attr(self.model(), name@),
    {
        match self.attribute(name) {
            Some(v) => Some(v.to_owned()),
            None => None,
        }
    }

    /// The value of the attribute with the given name, or `default`.
    pub fn attribute_or(&self, name: &str, default: &str) -> (out: String)
        ensures
            out@ == attr_or(self.model(), name@, default@),
    {
        match self.attribute(name) {
            Some(v) => v.to_owned(),
            None => default.to_owned(),
        }
    }

    /// The value of an attribute of the first child with the given tag.
    pub fn child_attr_value(&self, tag: &str, name: &str) -> (out: Option<String>)
        ensures
            opt_text(out) == child_attr(self.model(), tag@, name@),
    {
        match self.child(tag) {
            Some(c) => c.attribute_text(name),
            None => None,
        }
    }
}

} // verus!
