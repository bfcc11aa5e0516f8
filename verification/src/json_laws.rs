//! What holds of the members of objects.
use vstd::prelude::*;

use crate::json::{integer_member, member_from, text_member, text_or, FieldModel};

verus! {

proof fn lemma_member_from(
    members: Seq<(Seq<char>, FieldModel)>,
    key: Seq<char>,
    i: int,
) -> (k: int)
    requires
        0 <= i <= members.len(),
    ensures
        ({
            ||| i <= k < members.len() && members[k].0 == key && member_from(members, key, i)
                == members[k].1 && forall|j: int| i <= j < k ==> (#[trigger] members[j]).0 != key
            ||| (forall|j: int| i <= j < members.len() ==> (#[trigger] members[j]).0 != key)
                && member_from(members, key, i) is Other
        }),
    decreases members.len() - i,
{
    if i < members.len() && members[i].0 != key {
        lemma_member_from(members, key, i + 1)
    } else {
        i
    }
}

/// The text of a member is that of the first with the name, where it is a text, and else
/// the default. The number of a member is found alike.
pub proof fn law_member(
    members: Seq<(Seq<char>, FieldModel)>,
    key: Seq<char>,
    default: Seq<char>,
) -> (k: int)
    ensures
        ({
            ||| 0 <= k < members.len() && members[k].0 == key && (forall|j: int|
                0 <= j < k ==> (#[trigger] members[j]).0 != key) && match members[k].1 {
                FieldModel::Text(s) => text_member(members, key) == Some(s) && text_or(
                    members,
                    key,
                    default,
                ) == s && integer_member(members, key) is None,
                FieldModel::Integer(n) => integer_member(members, key) == Some(n) && text_member(
                    members,
                    key,
                ) is None && text_or(members, key, default) == default,
                _ => text_member(members, key) is None && integer_member(members, key) is None
                    && text_or(members, key, default) == default,
            }
            ||| (forall|j: int| 0 <= j < members.len() ==> (#[trigger] members[j]).0 != key)
                && text_member(members, key) is None && integer_member(members, key) is None
                && text_or(members, key, default) == default
        }),
{
    lemma_member_from(members, key, 0)
}

} // verus!
