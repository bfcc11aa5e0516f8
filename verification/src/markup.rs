//! Trees of elements and texts, and the XML text that writes them.
use vstd::prelude::*;

use crate::number::{decimal, lemma_decimal_digits, signed_decimal};
use crate::text::escape;
use crate::xml::{
    element_from, forest, tagged_from, tree, AttrModel, RecordModel, XmlKind, XmlModel,
};

verus! {

// ---------------------------------------------------------------------------
// What can be written
// ---------------------------------------------------------------------------

/// `NameStartChar` of XML 1.0, without the colon.
pub open spec fn starts_name(c: char) -> bool {
    let n = c as u32;
    ||| 'A' <= c <= 'Z' || 'a' <= c <= 'z' || c == '_'
    ||| 0xc0 <= n <= 0xd6 || 0xd8 <= n <= 0xf6 || 0xf8 <= n <= 0x2ff || 0x370 <= n <= 0x37d
    ||| 0x37f <= n <= 0x1fff || 0x200c <= n <= 0x200d || 0x2070 <= n <= 0x218f
    ||| 0x2c00 <= n <= 0x2fef || 0x3001 <= n <= 0xd7ff || 0xf900 <= n <= 0xfdcf
    ||| 0xfdf0 <= n <= 0xfffd || 0x10000 <= n <= 0xeffff
}

/// `NameChar` of XML 1.0, without the colon.
pub open spec fn continues_name(c: char) -> bool {
    let n = c as u32;
    ||| starts_name(c)
    ||| '0' <= c <= '9' || c == '-' || c == '.'
    ||| n == 0xb7 || 0x300 <= n <= 0x36f || 0x203f <= n <= 0x2040
}

/// Whether `s` is a name without a prefix.
pub open spec fn is_name(s: Seq<char>) -> bool {
    &&& s.len() > 0
    &&& starts_name(s[0])
    &&& forall|i: int| 0 <= i < s.len() ==> continues_name(#[trigger] s[i])
}

/// Whether `c` is a character of XML 1.0 that is neither a tab nor a line end.
pub open spec fn is_visible(c: char) -> bool {
    c as u32 >= 0x20 && c as u32 != 0xfffe && c as u32 != 0xffff
}

/// Whether `s` can be the value of an attribute as it stands. Tabs and line ends would
/// be read as spaces.
pub open spec fn is_value(s: Seq<char>) -> bool {
    forall|i: int| 0 <= i < s.len() ==> is_visible(#[trigger] s[i])
}

/// Whether the end of a character section stands at `i`.
pub open spec fn ends_section(s: Seq<char>, i: int) -> bool {
    s[i] == ']' && s[i + 1] == ']' && s[i + 2] == '>'
}

/// Whether `s` can stand between two tags as it is.
pub open spec fn is_content(s: Seq<char>) -> bool {
    &&& s.len() > 0
    &&& forall|i: int|
        0 <= i < s.len() ==> (is_visible(#[trigger] s[i]) || s[i] == '\t' || s[i] == '\n') && s[i]
            != '<' && s[i] != '&'
    &&& forall|i: int| 0 <= i && i + 2 < s.len() ==> !#[trigger] ends_section(s, i)
}

/// Whether the attributes of an element can be written.
pub open spec fn are_attrs(list: Seq<AttrModel>) -> bool {
    &&& forall|i: int|
        0 <= i < list.len() ==> is_name((#[trigger] list[i]).name) && list[i].name != "xmlns"@
            && !list[i].namespaced && is_value(list[i].value)
    &&& forall|i: int, j: int|
        0 <= i < j < list.len() ==> (#[trigger] list[i]).name != (#[trigger] list[j]).name
}

/// The text that an element with the given nodes in it begins with.
pub open spec fn leading_text(children: Seq<XmlModel>) -> Option<Seq<char>> {
    if children.len() > 0 && children[0].kind == XmlKind::Text {
        children[0].text
    } else {
        None
    }
}

/// Whether no text of a list stands beside another.
pub open spec fn texts_apart(list: Seq<XmlModel>) -> bool {
    forall|i: int, j: int|
        0 <= i < j < list.len() && j == i + 1 ==> (#[trigger] list[i]).kind == XmlKind::Element || (
        #[trigger] list[j]).kind == XmlKind::Element
}

/// Whether a node can be written: names are names, no attribute occurs twice, and no
/// text stands beside another.
pub open spec fn is_writable(n: XmlModel) -> bool
    decreases n,
{
    match n.kind {
        XmlKind::Element => {
            &&& is_name(n.tag)
            &&& are_attrs(n.attrs)
            &&& n.text == leading_text(n.children)
            &&& are_writable(n.children)
            &&& texts_apart(n.children)
        },
        XmlKind::Text => n.tag.len() == 0 && n.attrs.len() == 0 && n.children.len() == 0 && (
        match n.text {
            Some(s) => is_content(s),
            None => false,
        }),
        XmlKind::Other => false,
    }
}

/// Whether each node of a list can be written.
pub open spec fn are_writable(list: Seq<XmlModel>) -> bool
    decreases list,
{
    list.len() == 0 || (are_writable(list.drop_last()) && is_writable(list.last()))
}

// ---------------------------------------------------------------------------
// Markup
// ---------------------------------------------------------------------------

/// The declaration at the head of a document.
pub const DECLARATION: &'static str = "<?xml version=\"1.0\" encoding=\"UTF-8\"?>\n";

/// An attribute as it stands in a tag.
pub open spec fn attr_markup(a: AttrModel) -> Seq<char> {
    " "@ + a.name + "=\""@ + escape(a.value) + "\""@
}

/// The attributes of a tag, in order.
pub open spec fn attrs_markup(list: Seq<AttrModel>) -> Seq<char>
    decreases list.len(),
{
    if list.len() == 0 {
        Seq::empty()
    } else {
        attrs_markup(list.drop_last()) + attr_markup(list.last())
    }
}

/// The XML text that writes a node. An element with nothing in it is one tag.
pub open spec fn markup(n: XmlModel) -> Seq<char>
    decreases n,
{
    if n.kind == XmlKind::Text {
        match n.text {
            Some(s) => s,
            None => Seq::empty(),
        }
    } else if n.children.len() == 0 {
        "<"@ + n.tag + attrs_markup(n.attrs) + "/>"@
    } else {
        "<"@ + n.tag + attrs_markup(n.attrs) + ">"@ + markups(n.children) + "</"@ + n.tag + ">"@
    }
}

/// The XML text that writes the nodes of a list, in order.
pub open spec fn markups(list: Seq<XmlModel>) -> Seq<char>
    decreases list,
{
    if list.len() == 0 {
        Seq::empty()
    } else {
        markups(list.drop_last()) + markup(list.last())
    }
}

/// Whether a text is the document that writes the element `root`. It is shorter than
/// what 32 bits can count.
pub open spec fn writes(xml: Seq<char>, root: XmlModel) -> bool {
    &&& root.kind == XmlKind::Element
    &&& is_writable(root)
    &&& xml == DECLARATION@ + markup(root)
    &&& xml.len() < u32::MAX
}

// ---------------------------------------------------------------------------
// Putting trees together
// ---------------------------------------------------------------------------

/// An attribute without a namespace.
pub open spec fn plain_attr(name: Seq<char>, value: Seq<char>) -> AttrModel {
    AttrModel { name, value, namespaced: false }
}

/// An element with the given nodes in it.
pub open spec fn element(
    tag: Seq<char>,
    attrs: Seq<AttrModel>,
    children: Seq<XmlModel>,
) -> XmlModel {
    XmlModel { kind: XmlKind::Element, tag, attrs, text: leading_text(children), children }
}

/// A text.
pub open spec fn text_node(s: Seq<char>) -> XmlModel {
    XmlModel {
        kind: XmlKind::Text,
        tag: Seq::empty(),
        attrs: Seq::empty(),
        text: Some(s),
        children: Seq::empty(),
    }
}

/// Putting texts together is associative.
pub broadcast proof fn lemma_add_assoc(a: Seq<char>, b: Seq<char>, c: Seq<char>)
    ensures
        #[trigger] ((a + b) + c) == a + (b + c),
{
    assert((a + b) + c =~= a + (b + c));
}

/// The markup of a list with one node more.
pub proof fn lemma_markups_push(list: Seq<XmlModel>, n: XmlModel)
    ensures
        markups(list.push(n)) == markups(list) + markup(n),
{
    assert(list.push(n).drop_last() =~= list);
}

/// The attributes of a tag with one more.
pub proof fn lemma_attrs_push(list: Seq<AttrModel>, a: AttrModel)
    ensures
        attrs_markup(list.push(a)) == attrs_markup(list) + attr_markup(a),
{
    assert(list.push(a).drop_last() =~= list);
}

/// Whether the nodes of a list can stand in an element.
pub open spec fn can_stand(list: Seq<XmlModel>) -> bool {
    are_writable(list) && texts_apart(list)
}

/// A list with one writable node more, which is no text beside another.
pub proof fn lemma_stand_push(list: Seq<XmlModel>, n: XmlModel)
    requires
        can_stand(list),
        is_writable(n),
        list.len() == 0 || n.kind == XmlKind::Element || list.last().kind == XmlKind::Element,
    ensures
        can_stand(list.push(n)),
{
    let more = list.push(n);
    assert(more.drop_last() =~= list);
    assert(more.last() == n);
    assert forall|i: int, j: int| 0 <= i < j < more.len() && j == i + 1 implies (
    #[trigger] more[i]).kind == XmlKind::Element || (#[trigger] more[j]).kind
        == XmlKind::Element by {
        if j < list.len() {
            assert(more[i] == list[i] && more[j] == list[j]);
        } else {
            assert(more[i] == list.last());
        }
    }
}

/// An element can be written where its name, its attributes and its nodes can.
pub proof fn lemma_writable_element(
    tag: Seq<char>,
    attrs: Seq<AttrModel>,
    children: Seq<XmlModel>,
)
    requires
        is_name(tag),
        are_attrs(attrs),
        can_stand(children),
    ensures
        is_writable(element(tag, attrs, children)),
{
}

/// Text without the characters that have entities is escaped as it stands.
pub proof fn lemma_escape_plain(s: Seq<char>)
    requires
        forall|i: int|
            0 <= i < s.len() ==> #[trigger] s[i] != '&' && s[i] != '<' && s[i] != '>' && s[i]
                != '"',
    ensures
        escape(s) == s,
    decreases s.len(),
{
    if s.len() > 0 {
        lemma_escape_plain(s.drop_last());
        assert(s =~= s.drop_last() + seq![s.last()]);
    } else {
        assert(s =~= Seq::empty());
    }
}

/// The markup of up to three attributes.
pub proof fn lemma_three_attrs(a: AttrModel, b: AttrModel, c: AttrModel)
    ensures
        attrs_markup(seq![a]) == attr_markup(a),
        attrs_markup(seq![a, b]) == attr_markup(a) + attr_markup(b),
        attrs_markup(seq![a, b, c]) == attr_markup(a) + attr_markup(b) + attr_markup(c),
{
    let none = Seq::<AttrModel>::empty();
    lemma_attrs_push(none, a);
    lemma_attrs_push(none.push(a), b);
    lemma_attrs_push(none.push(a).push(b), c);
    assert(seq![a] =~= none.push(a));
    assert(seq![a, b] =~= none.push(a).push(b));
    assert(seq![a, b, c] =~= none.push(a).push(b).push(c));
    assert(attrs_markup(none) + attr_markup(a) =~= attr_markup(a));
}

/// The markup of one node and of three.
pub proof fn lemma_three_nodes(a: XmlModel, b: XmlModel, c: XmlModel)
    ensures
        markups(seq![a]) == markup(a),
        markups(seq![a, b, c]) == markup(a) + markup(b) + markup(c),
{
    let none = Seq::<XmlModel>::empty();
    lemma_markups_push(none, a);
    lemma_markups_push(none.push(a), b);
    lemma_markups_push(none.push(a).push(b), c);
    assert(seq![a] =~= none.push(a));
    assert(seq![a, b, c] =~= none.push(a).push(b).push(c));
    assert(markups(none) + markup(a) =~= markup(a));
}

/// An element with nodes in it is its opening tag, the nodes and its closing tag.
pub proof fn lemma_element(
    tag: Seq<char>,
    attrs: Seq<AttrModel>,
    children: Seq<XmlModel>,
    open: Seq<char>,
    close: Seq<char>,
)
    requires
        children.len() > 0,
        open == "<"@ + tag + attrs_markup(attrs) + ">"@,
        close == "</"@ + tag + ">"@,
    ensures
        markup(element(tag, attrs, children)) == open + markups(children) + close,
{
    let inner = markups(children);
    lemma_add_assoc(open + inner, "</"@, tag);
    lemma_add_assoc(open + inner, "</"@ + tag, ">"@);
}

/// A tag without attributes.
pub proof fn lemma_bare_tag(tag: Seq<char>)
    ensures
        "<"@ + tag + attrs_markup(Seq::empty()) + ">"@ == "<"@ + tag + ">"@,
{
    assert("<"@ + tag + attrs_markup(Seq::empty()) =~= "<"@ + tag);
}

/// Whether an attribute can have the given name.
pub open spec fn is_attr_name(name: Seq<char>) -> bool {
    is_name(name) && name != "xmlns"@
}

/// One attribute can be written.
pub proof fn lemma_one_attr(name: Seq<char>, value: Seq<char>)
    requires
        is_attr_name(name),
        is_value(value),
    ensures
        are_attrs(seq![plain_attr(name, value)]),
{
}

/// Three attributes with different names can be written.
pub proof fn lemma_attrs_differ(a: AttrModel, b: AttrModel, c: AttrModel)
    requires
        is_attr_name(a.name) && is_attr_name(b.name) && is_attr_name(c.name),
        is_value(a.value) && is_value(b.value) && is_value(c.value),
        !a.namespaced && !b.namespaced && !c.namespaced,
        a.name != b.name && a.name != c.name && b.name != c.name,
    ensures
        are_attrs(seq![a, b]),
        are_attrs(seq![a, b, c]),
{
}

/// A node with a blank on either side can stand in an element.
pub proof fn lemma_stand_three(a: XmlModel, b: XmlModel, c: XmlModel)
    requires
        is_writable(a) && is_writable(b) && is_writable(c),
        b.kind == XmlKind::Element,
    ensures
        can_stand(seq![a, b, c]),
{
    let none = Seq::<XmlModel>::empty();
    assert(can_stand(none));
    lemma_stand_push(none, a);
    lemma_stand_push(none.push(a), b);
    lemma_stand_push(none.push(a).push(b), c);
    assert(seq![a, b, c] =~= none.push(a).push(b).push(c));
}

/// A signed number is a value, and is escaped as it stands.
pub proof fn lemma_number_plain(n: int)
    ensures
        escape(signed_decimal(n)) == signed_decimal(n),
        is_value(signed_decimal(n)),
{
    let m = if n < 0 {
        (-n) as nat
    } else {
        n as nat
    };
    lemma_decimal_digits(m);
    let s = signed_decimal(n);
    assert forall|k: int| 0 <= k < s.len() implies #[trigger] s[k] != '&' && s[k] != '<' && s[k]
        != '>' && s[k] != '"' && is_visible(s[k]) by {
        if n < 0 && k > 0 {
            assert(s[k] == decimal(m)[k - 1]);
        } else if n >= 0 {
            assert(s[k] == decimal(m)[k]);
        }
    }
    lemma_escape_plain(s);
}

// ---------------------------------------------------------------------------
// Nodes with blanks between them
// ---------------------------------------------------------------------------

/// The nodes of a list with the text `lead` before each.
pub open spec fn led(lead: Seq<char>, items: Seq<XmlModel>) -> Seq<XmlModel>
    decreases items.len(),
{
    if items.len() == 0 {
        Seq::empty()
    } else {
        led(lead, items.drop_last()).push(text_node(lead)).push(items.last())
    }
}

/// The nodes of a list with the text `lead` before each, and `end` behind them.
pub open spec fn spaced(lead: Seq<char>, items: Seq<XmlModel>, end: Seq<char>) -> Seq<XmlModel> {
    led(lead, items).push(text_node(end))
}

/// The markup of the nodes of a list with `lead` before each.
pub open spec fn led_markup(lead: Seq<char>, items: Seq<XmlModel>) -> Seq<char>
    decreases items.len(),
{
    if items.len() == 0 {
        Seq::empty()
    } else {
        led_markup(lead, items.drop_last()) + (lead + markup(items.last()))
    }
}

/// The markup of nodes with blanks between them.
pub proof fn lemma_led_markup(lead: Seq<char>, items: Seq<XmlModel>)
    ensures
        markups(led(lead, items)) == led_markup(lead, items),
    decreases items.len(),
{
    if items.len() > 0 {
        let before = led(lead, items.drop_last());
        let blank = text_node(lead);
        lemma_led_markup(lead, items.drop_last());
        lemma_markups_push(before, blank);
        lemma_markups_push(before.push(blank), items.last());
        lemma_add_assoc(markups(before), markup(blank), markup(items.last()));
        assert(markup(blank) == lead);
    }
}

/// The markup of nodes with blanks between them and one behind them.
pub proof fn lemma_spaced_markup(lead: Seq<char>, items: Seq<XmlModel>, end: Seq<char>)
    ensures
        markups(spaced(lead, items, end)) == led_markup(lead, items) + end,
{
    lemma_led_markup(lead, items);
    lemma_markups_push(led(lead, items), text_node(end));
    assert(markup(text_node(end)) == end);
}

/// Where each node of a list stands among the blanks.
pub proof fn lemma_led_places(lead: Seq<char>, items: Seq<XmlModel>, k: int)
    requires
        0 <= k < items.len(),
    ensures
        led(lead, items).len() == 2 * items.len(),
        led(lead, items)[2 * k] == text_node(lead),
        led(lead, items)[2 * k + 1] == items[k],
    decreases items.len(),
{
    let before = led(lead, items.drop_last());
    if items.len() == 1 {
        assert(before.len() == 0);
    } else {
        lemma_led_places(lead, items.drop_last(), 0);
    }
    if k < items.len() - 1 {
        lemma_led_places(lead, items.drop_last(), k);
    }
}

/// Blanks between nodes do not hide an element.
pub proof fn lemma_spaced_tagged(
    lead: Seq<char>,
    items: Seq<XmlModel>,
    end: Seq<char>,
    tag: Seq<char>,
    k: int,
)
    requires
        0 <= k <= items.len(),
    ensures
        tagged_from(spaced(lead, items, end), tag, 2 * k) == tagged_from(items, tag, k),
    decreases items.len() - k,
{
    let all = spaced(lead, items, end);
    reveal_with_fuel(tagged_from, 3);
    if k < items.len() {
        lemma_led_places(lead, items, k);
        lemma_spaced_tagged(lead, items, end, tag, k + 1);
        assert(all[2 * k] == text_node(lead) && all[2 * k + 1] == items[k]);
    } else {
        if items.len() > 0 {
            lemma_led_places(lead, items, 0);
        }
        assert(all[2 * k] == text_node(end));
    }
}

/// The first element behind a blank.
pub proof fn lemma_spaced_first(lead: Seq<char>, items: Seq<XmlModel>, end: Seq<char>)
    requires
        items.len() > 0,
        items[0].kind == XmlKind::Element,
    ensures
        element_from(spaced(lead, items, end), 0) == Some(items[0]),
{
    let all = spaced(lead, items, end);
    lemma_led_places(lead, items, 0);
    reveal_with_fuel(element_from, 3);
    assert(all[0] == text_node(lead) && all[1] == items[0]);
}

/// Elements with blanks between them can stand in an element.
pub proof fn lemma_led_stand(lead: Seq<char>, items: Seq<XmlModel>)
    requires
        is_writable(text_node(lead)),
        forall|i: int|
            0 <= i < items.len() ==> is_writable(#[trigger] items[i]) && items[i].kind
                == XmlKind::Element,
    ensures
        can_stand(led(lead, items)),
        items.len() > 0 ==> led(lead, items).len() > 0 && led(lead, items).last().kind
            == XmlKind::Element,
    decreases items.len(),
{
    if items.len() > 0 {
        let before = led(lead, items.drop_last());
        assert forall|i: int| 0 <= i < items.len() - 1 implies is_writable(
            #[trigger] items.drop_last()[i],
        ) && items.drop_last()[i].kind == XmlKind::Element by {
            assert(items.drop_last()[i] == items[i]);
        }
        assert(is_writable(items[items.len() - 1]));
        lemma_led_stand(lead, items.drop_last());
        if items.len() == 1 {
            assert(before.len() == 0);
        }
        lemma_stand_push(before, text_node(lead));
        lemma_stand_push(before.push(text_node(lead)), items.last());
    } else {
        assert(can_stand(Seq::<XmlModel>::empty()));
    }
}

/// Elements with blanks between them and one behind them can stand in an element.
pub proof fn lemma_spaced_stand(lead: Seq<char>, items: Seq<XmlModel>, end: Seq<char>)
    requires
        is_writable(text_node(lead)),
        is_writable(text_node(end)),
        forall|i: int|
            0 <= i < items.len() ==> is_writable(#[trigger] items[i]) && items[i].kind
                == XmlKind::Element,
    ensures
        can_stand(spaced(lead, items, end)),
{
    lemma_led_stand(lead, items);
    if items.len() == 0 {
        assert(led(lead, items).len() == 0);
    }
    lemma_stand_push(led(lead, items), text_node(end));
}

// ---------------------------------------------------------------------------
// Records
// ---------------------------------------------------------------------------

/// A node at its depth, and the nodes in it behind it.
pub open spec fn flat(n: XmlModel, depth: int) -> Seq<RecordModel>
    decreases n,
{
    seq![RecordModel { depth, kind: n.kind, tag: n.tag, attrs: n.attrs, text: n.text }] + flats(
        n.children,
        depth + 1,
    )
}

/// The nodes of a list at their depth, each with the nodes in it behind it.
pub open spec fn flats(list: Seq<XmlModel>, depth: int) -> Seq<RecordModel>
    decreases list,
{
    if list.len() == 0 {
        Seq::empty()
    } else {
        flat(list[0], depth) + flats(list.subrange(1, list.len() as int), depth)
    }
}

/// Records that hold a list of trees at `pos`, with nothing as deep behind them, give
/// the trees.
proof fn lemma_forest_of_flats(
    records: Seq<RecordModel>,
    pos: int,
    depth: int,
    list: Seq<XmlModel>,
    end: int,
)
    requires
        0 <= pos <= end <= records.len(),
        records.subrange(pos, end) == flats(list, depth + 1),
        end == records.len() || records[end].depth <= depth,
    ensures
        forest(records, pos, depth) == (list, end),
    decreases list,
{
    let part = records.subrange(pos, end);
    reveal_with_fuel(flats, 2);
    reveal_with_fuel(flat, 2);
    assert(part.len() == end - pos);
    if list.len() == 0 {
        assert(flats(list, depth + 1).len() == 0);
        assert(pos == end);
        assert(list =~= Seq::empty());
    } else {
        let n = list[0];
        let rest = list.subrange(1, list.len() as int);
        let inner = flats(n.children, depth + 2);
        let mid = pos + 1 + inner.len();
        assert(part.len() == 1 + inner.len() + flats(rest, depth + 1).len());
        assert(records[pos] == part[0]);
        assert(records.subrange(pos + 1, mid) =~= inner) by {
            assert forall|k: int| 0 <= k < inner.len() implies records.subrange(pos + 1, mid)[k]
                == inner[k] by {
                assert(part[k + 1] == inner[k]);
            }
        }
        assert(records.subrange(mid, end) =~= flats(rest, depth + 1)) by {
            assert forall|k: int| 0 <= k < end - mid implies records.subrange(mid, end)[k] == flats(
                rest,
                depth + 1,
            )[k] by {
                assert(part[k + 1 + inner.len()] == flats(rest, depth + 1)[k]);
            }
        }
        if mid < end {
            assert(records[mid] == records.subrange(mid, end)[0]);
            assert(rest.len() > 0);
            assert(flats(rest, depth + 1)[0] == flat(rest[0], depth + 1)[0]);
        }
        assert(decreases_to!(list => list[0]));
        assert(decreases_to!(list[0] => list[0].children));
        lemma_forest_of_flats(records, pos + 1, depth + 1, n.children, mid);
        lemma_forest_of_flats(records, mid, depth, rest, end);
        assert(seq![n] + rest =~= list);
    }
}

/// The records of a tree give the tree.
pub proof fn law_tree_of_records(n: XmlModel, depth: int)
    ensures
        tree(flat(n, depth)) == n,
{
    let records = flat(n, depth);
    assert(records.subrange(1, records.len() as int) =~= flats(n.children, depth + 1));
    lemma_forest_of_flats(records, 1, depth, n.children, records.len() as int);
}

} // verus!
