//! JSON objects that identify a plugin.
use vstd::prelude::*;

use crate::text::same_text;

verus! {

/// The value of a member, as far as plugin identities use it.
#[derive(Debug)]
pub enum JsonField {
    Text(String),
    Integer(i64),
    Null,
    Other,
}

/// A named member of an object.
#[derive(Debug)]
pub struct JsonMember {
    pub name: String,
    pub value: JsonField,
}

/// What a `JsonField` holds.
#[verifier::ext_equal]
pub enum FieldModel {
    Text(Seq<char>),
    Integer(int),
    Null,
    Other,
}

impl View for JsonField {
    type V = FieldModel;

    open spec fn view(&self) -> FieldModel {
        match self {
            JsonField::Text(s) => FieldModel::Text(s@),
            JsonField::Integer(n) => FieldModel::Integer(*n as int),
            JsonField::Null => FieldModel::Null,
            JsonField::Other => FieldModel::Other,
        }
    }
}

impl View for JsonMember {
    type V = (Seq<char>, FieldModel);

    open spec fn view(&self) -> (Seq<char>, FieldModel) {
        (self.name@, self.value@)
    }
}

/// The names and values of a list of members.
pub open spec fn member_models(list: Seq<JsonMember>) -> Seq<(Seq<char>, FieldModel)> {
    list.map_values(|m: JsonMember| m@)
}

/// The members of the object that a JSON text writes, as `serde_json` reads it.
/// Text that is no JSON object has none.
pub uninterp spec fn json_object(text: Seq<char>) -> Seq<(Seq<char>, FieldModel)>;

/// `serde_json::from_str`, the members of the object handed out one by one: a
/// string as text, a number that fits as an integer, `null`, anything else as `Other`.
/// The result depends on the text alone, and is only named.
#[verifier::external_body]
pub(crate) fn parse_object(text: &str) -> (out: Vec<JsonMember>)
    ensures
        member_models(out@) == json_object(text@),
{
    let members = match serde_json::from_str::<serde_json::Value>(text) {
        Ok(serde_json::Value::Object(map)) => map,
        Ok(_) | Err(_) => return Vec::new(),
    };
    let field = |v: serde_json::Value| match v {
        serde_json::Value::String(s) => JsonField::Text(s),
        serde_json::Value::Number(n) => n.as_i64().map_or(JsonField::Other, JsonField::Integer),
        serde_json::Value::Null => JsonField::Null,
        _ => JsonField::Other,
    };
    members.into_iter().map(|(name, v)| JsonMember { name, value: field(v) }).collect()
}

/// The value of the first member at or after `i` with the given name.
pub open spec fn member_from(
    members: Seq<(Seq<char>, FieldModel)>,
    key: Seq<char>,
    i: int,
) -> FieldModel
    decreases members.len() - i,
{
    if i >= members.len() {
        FieldModel::Other
    } else if members[i].0 == key {
        members[i].1
    } else {
        member_from(members, key, i + 1)
    }
}

/// The text of the member with the given name.
pub open spec fn text_member(members: Seq<(Seq<char>, FieldModel)>, key: Seq<char>) -> Option<
    Seq<char>,
> {
    match member_from(members, key, 0) {
        FieldModel::Text(s) => Some(s),
        _ => None,
    }
}

/// The integer of the member with the given name.
pub open spec fn integer_member(members: Seq<(Seq<char>, FieldModel)>, key: Seq<char>) -> Option<
    int,
> {
    match member_from(members, key, 0) {
        FieldModel::Integer(n) => Some(n),
        _ => None,
    }
}

/// The text of the member with the given name, or `default`.
pub open spec fn text_or(
    members: Seq<(Seq<char>, FieldModel)>,
    key: Seq<char>,
    default: Seq<char>,
) -> Seq<char> {
    match text_member(members, key) {
        Some(s) => s,
        None => default,
    }
}

/// The index of the first member with the given name, or the length.
fn index_of_member(members: &Vec<JsonMember>, key: &str) -> (at: usize)
    ensures
        at <= members@.len(),
        member_from(member_models(members@), key@, 0) == (if at < members@.len() {
            members@[at as int].value@
        } else {
            FieldModel::Other
        }),
{
    let mut i: usize = 0;
    while i < members.len()
        invariant
            i <= members@.len(),
            member_from(member_models(members@), key@, 0) == member_from(
                member_models(members@),
                key@,
                i as int,
            ),
        decreases members@.len() - i,
    {
        assert(member_models(members@)[i as int] == members@[i as int]@);
        if same_text(members[i].name.as_str(), key) {
            return i;
        }
        i = i + 1;
    }
    i
}

/// The text of the member with the given name, or `default`.
pub fn member_text_or(members: &Vec<JsonMember>, key: &str, default: &str) -> (out: String)
    ensures
        out@ == text_or(member_models(members@), key@, default@),
{
    let at = index_of_member(members, key);
    if at < members.len() {
        match &members[at].value {
            JsonField::Text(s) => s.clone(),
            _ => default.to_owned(),
        }
    } else {
        default.to_owned()
    }
}

/// The integer of the member with the given name, or `default`.
pub fn member_integer_or(members: &Vec<JsonMember>, key: &str, default: i64) -> (out: i64)
    ensures
        out == (match integer_member(member_models(members@), key@) {
            Some(n) => n,
            None => default as int,
        }),
{
    let at = index_of_member(members, key);
    if at < members.len() {
        match &members[at].value {
            JsonField::Integer(n) => *n,
            _ => default,
        }
    } else {
        default
    }
}

} // verus!
