//! Writers of the chain files of digital audio workstations.
use vstd::prelude::*;

use crate::db::SlotModel;
use crate::json::{json_object, FieldModel};

pub mod ableton;
pub mod ableton_laws;
pub mod dawproject;
pub mod dawproject_laws;
pub mod kept_laws;
pub mod logicpro;
pub mod reaper;
pub mod reaper_laws;

verus! {

/// The identities that the slots of a chain carry.
pub open spec fn identities(slots: Seq<SlotModel>) -> Seq<Seq<(Seq<char>, FieldModel)>> {
    slots.map_values(|s: SlotModel| json_object(s.plugin_identity))
}

} // verus!
