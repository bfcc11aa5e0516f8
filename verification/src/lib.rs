//! Patchbay: an inventory of audio plugins, a reader and writer of DAW projects, and a
//! library of plugin chains.
use vstd::prelude::*;

pub mod archive;
pub mod base64;
pub mod bytes;
pub mod daw_readers;
pub mod daw_writers;
pub mod db;
pub mod dossier_page;
pub mod dossier_page_laws;
pub mod indexer;
pub mod json;
pub mod json_laws;
pub mod live_project;
pub mod live_project_laws;
pub mod markup;
pub mod number;
pub mod probe;
pub mod probe_laws;
pub mod property_list;
pub mod scanner;
pub mod selection;
pub mod text;
pub mod text_laws;
pub mod watcher;
pub mod xml;
pub mod xml_laws;

verus! {

/// A lower-case hexadecimal digit.
pub open spec fn is_hex_digit(c: char) -> bool {
    ('0' <= c && c <= '9') || ('a' <= c && c <= 'f')
}

/// The text of a random UUID: lower-case hexadecimal digits in groups of eight, four,
/// four, four and twelve with hyphens between them, the version 4 and the variant of
/// RFC 4122 in their places.
pub open spec fn is_sync_id(s: Seq<char>) -> bool {
    &&& s.len() == 36
    &&& forall|i: int|
        #![trigger s[i]]
        0 <= i < 36 ==> if i == 8 || i == 13 || i == 18 || i == 23 {
            s[i] == '-'
        } else {
            is_hex_digit(s[i])
        }
    &&& s[14] == '4'
    &&& s[19] == '8' || s[19] == '9' || s[19] == 'a' || s[19] == 'b'
}

/// A new identifier for a record, by `uuid::Uuid::new_v4` and its `to_string`. Claimed
/// is the form of the text, which is the hyphenated form of a version 4 UUID. That two
/// identifiers differ is a matter of chance and not claimed. The call panics on a
/// system that gives no random bytes.
#[verifier::external_body]
pub fn new_sync_id() -> (out: String)
    ensures
        is_sync_id(out@),
{
    uuid::Uuid::new_v4().to_string()
}

} // verus!
