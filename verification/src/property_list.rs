//! Property lists as trees of values.
use vstd::prelude::*;

use crate::text::{opt_str, same_text};

verus! {

// ---------------------------------------------------------------------------
// Types
// ---------------------------------------------------------------------------

/// A value without those in it. `Other` is a date, a real number, a UID, or an
/// integer that does not fit.
#[derive(Debug)]
pub enum PlistItem {
    Array,
    Dictionary,
    Text(String),
    Integer(i64),
    Boolean(bool),
    Data(Vec<u8>),
    Other,
}

/// A value with the values in it. In a dictionary a key stands beside each.
#[derive(Debug)]
pub struct PlistNode {
    pub item: PlistItem,
    pub children: Vec<(String, PlistNode)>,
}

/// What a `PlistItem` holds.
#[verifier::ext_equal]
pub enum ItemModel {
    Array,
    Dictionary,
    Text(Seq<char>),
    Integer(int),
    Boolean(bool),
    Data(Seq<u8>),
    Other,
}

/// What a `PlistNode` holds.
#[verifier::ext_equal]
pub struct PlistModel {
    pub item: ItemModel,
    pub children: Seq<(Seq<char>, PlistModel)>,
}

impl View for PlistItem {
    type V = ItemModel;

    open spec fn view(&self) -> ItemModel {
        match self {
            PlistItem::Array => ItemModel::Array,
            PlistItem::Dictionary => ItemModel::Dictionary,
            PlistItem::Text(s) => ItemModel::Text(s@),
            PlistItem::Integer(n) => ItemModel::Integer(*n as int),
            PlistItem::Boolean(b) => ItemModel::Boolean(*b),
            PlistItem::Data(d) => ItemModel::Data(d@),
            PlistItem::Other => ItemModel::Other,
        }
    }
}

impl PlistNode {
    /// What the value holds.
    pub open spec fn model(self) -> PlistModel
        decreases self,
    {
        PlistModel {
            item: self.item@,
            children: Seq::new(
                self.children@.len(),
                |i: int|
                    if 0 <= i < self.children@.len() {
                        (self.children@[i].0@, self.children@[i].1.model())
                    } else {
                        arbitrary()
                    },
            ),
        }
    }
}

/// What each entry of a list holds.
pub open spec fn entry_models(list: Seq<(String, PlistNode)>) -> Seq<(Seq<char>, PlistModel)> {
    list.map_values(|e: (String, PlistNode)| (e.0@, e.1.model()))
}

// ---------------------------------------------------------------------------
// Parsing
// ---------------------------------------------------------------------------

/// A value of the `plist` crate.
#[verifier::external_type_specification]
#[verifier::external_body]
pub struct ExPlistValue(plist::Value);

/// What a value of the `plist` crate holds, with the values in it.
pub uninterp spec fn plist_content(value: plist::Value) -> PlistModel;

/// What the bytes of a property list hold, as `plist` reads them, or the message
/// of its error.
pub uninterp spec fn plist_document(data: Seq<u8>) -> Result<PlistModel, Seq<char>>;

/// What each value of a list holds.
pub open spec fn contents(list: Seq<(String, plist::Value)>) -> Seq<(Seq<char>, PlistModel)> {
    list.map_values(|e: (String, plist::Value)| (e.0@, plist_content(e.1)))
}

/// `plist::Value::from_reader` on bytes in memory. The result depends on the
/// bytes alone, and is only named.
#[verifier::external_body]
pub(crate) fn parse_value(data: &[u8]) -> (out: Result<plist::Value, String>)
    ensures
        match out {
            Ok(v) => plist_document(data@) == Ok::<PlistModel, Seq<char>>(plist_content(v)),
            Err(e) => plist_document(data@) == Err::<PlistModel, Seq<char>>(e@),
        },
{
    plist::Value::from_reader(std::io::Cursor::new(data)).map_err(|e| e.to_string())
}

/// The variant of a `plist::Value` and the values directly in it: the elements
/// of an array in order, the entries of a dictionary in its own order, none in
/// anything else. An integer is kept where `plist::Integer::as_signed` gives it.
#[verifier::external_body]
pub(crate) fn open_value(value: plist::Value) -> (out: (PlistItem, Vec<(String, plist::Value)>))
    ensures
        out.0@ == plist_content(value).item,
        contents(out.1@) == plist_content(value).children,
{
    match value {
        plist::Value::Array(list) => (PlistItem::Array, list.into_iter().map(|v| (String::new(), v)).collect()),
        plist::Value::Dictionary(map) => (PlistItem::Dictionary, map.into_iter().collect()),
        plist::Value::String(s) => (PlistItem::Text(s), vec![]),
        plist::Value::Integer(n) => (n.as_signed().map_or(PlistItem::Other, PlistItem::Integer), vec![]),
        plist::Value::Boolean(b) => (PlistItem::Boolean(b), vec![]),
        plist::Value::Data(d) => (PlistItem::Data(d), vec![]),
        _ => (PlistItem::Other, vec![]),
    }
}

/// The tree of a value.
fn build_node(value: plist::Value) -> (out: PlistNode)
    ensures
        out.model() == plist_content(value),
    decreases plist_content(value),
{
    let (item, entries) = open_value(value);
    let ghost whole = contents(entries@);
    let mut rest = entries;
    let mut children: Vec<(String, PlistNode)> = Vec::new();
    let ghost content = plist_content(value);
    assert(whole.skip(0) =~= whole);
    assert(entry_models(children@) =~= whole.take(0));
    while rest.len() > 0
        invariant
            whole == content.children,
            content == plist_content(value),
            children@.len() + rest@.len() == whole.len(),
            entry_models(children@) == whole.take(children@.len() as int),
            contents(rest@) == whole.skip(children@.len() as int),
        decreases rest@.len(),
    {
        let ghost n = children@.len() as int;
        let ghost before = entry_models(children@);
        let ghost old_rest = rest@;
        let (key, v) = rest.remove(0);
        proof {
            assert(contents(old_rest)[0] == whole[n]);
            assert(contents(old_rest)[0] == (key@, plist_content(v)));
            assert(decreases_to!(content => content.children[n].1));
        }
        let node = build_node(v);
        children.push((key, node));
        proof {
            assert(entry_models(children@) =~= before.push(whole[n]));
            assert(whole.take(n + 1) =~= before.push(whole[n]));
            assert(contents(rest@) =~= contents(old_rest).skip(1));
            assert(whole.skip(n + 1) =~= whole.skip(n).skip(1));
        }
    }
    let out = PlistNode { item, children };
    proof {
        assert(whole.take(whole.len() as int) =~= whole);
        assert(out.model().children =~= entry_models(children@));
    }
    out
}

/// The root of a property list, or the message of the error.
pub fn parse_plist(data: &[u8]) -> (out: Result<PlistNode, String>)
    ensures
        match out {
            Ok(node) => plist_document(data@) == Ok::<PlistModel, Seq<char>>(node.model()),
            Err(e) => plist_document(data@) == Err::<PlistModel, Seq<char>>(e@),
        },
{
    match parse_value(data) {
        Ok(v) => Ok(build_node(v)),
        Err(e) => Err(e),
    }
}

// ---------------------------------------------------------------------------
// Access
// ---------------------------------------------------------------------------

/// The value of the first entry at or after `i` with the given key.
pub open spec fn entry_from(
    entries: Seq<(Seq<char>, PlistModel)>,
    key: Seq<char>,
    i: int,
) -> Option<PlistModel>
    decreases entries.len() - i,
{
    if i >= entries.len() {
        None
    } else if entries[i].0 == key {
        Some(entries[i].1)
    } else {
        entry_from(entries, key, i + 1)
    }
}

/// The entry of a dictionary with the given key.
pub open spec fn entry(n: PlistModel, key: Seq<char>) -> Option<PlistModel> {
    if n.item is Dictionary {
        entry_from(n.children, key, 0)
    } else {
        None
    }
}

/// The text of a value.
pub open spec fn as_text(n: Option<PlistModel>) -> Option<Seq<char>> {
    match n {
        Some(v) => match v.item {
            ItemModel::Text(s) => Some(s),
            _ => None,
        },
        None => None,
    }
}

/// The integer of a value.
pub open spec fn as_integer(n: Option<PlistModel>) -> Option<int> {
    match n {
        Some(v) => match v.item {
            ItemModel::Integer(x) => Some(x),
            _ => None,
        },
        None => None,
    }
}

/// The truth value of a value.
pub open spec fn as_boolean(n: Option<PlistModel>) -> Option<bool> {
    match n {
        Some(v) => match v.item {
            ItemModel::Boolean(b) => Some(b),
            _ => None,
        },
        None => None,
    }
}

/// The bytes of a value.
pub open spec fn as_data(n: Option<PlistModel>) -> Option<Seq<u8>> {
    match n {
        Some(v) => match v.item {
            ItemModel::Data(d) => Some(d),
            _ => None,
        },
        None => None,
    }
}

/// The elements of an array.
pub open spec fn elements(n: Option<PlistModel>) -> Seq<PlistModel> {
    match n {
        Some(v) => if v.item is Array {
            v.children.map_values(|e: (Seq<char>, PlistModel)| e.1)
        } else {
            Seq::empty()
        },
        None => Seq::empty(),
    }
}

/// What an optional value holds.
pub open spec fn opt_model(n: Option<&PlistNode>) -> Option<PlistModel> {
    match n {
        Some(v) => Some(v.model()),
        None => None,
    }
}

impl PlistNode {
    /// Whether the value is a dictionary.
    pub fn is_dictionary(&self) -> (yes: bool)
        ensures
            yes == (self.model().item is Dictionary),
    {
        match self.item {
            PlistItem::Dictionary => true,
            _ => false,
        }
    }

    /// The entry of a dictionary with the given key.
    pub fn get(&self, key: &str) -> (out: Option<&PlistNode>)
        ensures
            opt_model(out) == entry(self.model(), key@),
    {
        if !self.is_dictionary() {
            return None;
        }
        let ghost all = self.model().children;
        for i in 0..self.children.len()
            invariant
                all == self.model().children,
                entry_from(all, key@, 0) == entry_from(all, key@, i as int),
                self.model().item is Dictionary,
        {
            assert(all[i as int] == (self.children@[i as int].0@, self.children@[i as int].1.model(
            )));
            if same_text(self.children[i].0.as_str(), key) {
                return Some(&self.children[i].1);
            }
        }
        None
    }

    /// The text of the entry of a dictionary with the given key.
    pub fn get_text(&self, key: &str) -> (out: Option<&str>)
        ensures
            opt_str(out) == as_text(entry(self.model(), key@)),
    {
        match self.get(key) {
            Some(n) => match &n.item {
                PlistItem::Text(s) => Some(s.as_str()),
                _ => None,
            },
            None => None,
        }
    }

    /// The integer of the entry of a dictionary with the given key.
    pub fn get_integer(&self, key: &str) -> (out: Option<i64>)
        ensures
            match out {
                Some(n) => as_integer(entry(self.model(), key@)) == Some(n as int),
                None => as_integer(entry(self.model(), key@)) is None,
            },
    {
        match self.get(key) {
            Some(n) => match &n.item {
                PlistItem::Integer(x) => Some(*x),
                _ => None,
            },
            None => None,
        }
    }
}

} // verus!
