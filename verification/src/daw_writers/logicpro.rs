//! Writer for Logic Pro channel strip settings (`.cst`).
//!
//! A `.cst` file is Logic's proprietary `OCuA` binary format: 4-char-tagged
//! chunks (`GAME`, `TSPP`, `UCuA`, ...) with embedded NSKeyedArchiver blobs and no
//! public description. Writing one is refused with a message that says why.
use vstd::prelude::*;

use crate::db::ChainDetail;

verus! {

/// Why no channel strip setting is written.
pub const NO_LOGIC_EXPORT: &'static str = "Logic export is not yet available: (1) the Logic reader does not decode AU device state yet, and (2) the .cst format is a proprietary OCuA binary \u{2014} see daw_writers/logicpro.rs for the full investigation notes.";

/// Refuses every chain with a message that says why.
pub fn write_cst(_chain: &ChainDetail) -> (out: Result<Vec<u8>, String>)
    ensures
        match out {
            Ok(_) => false,
            Err(e) => e@ == NO_LOGIC_EXPORT@,
        },
{
    Err(NO_LOGIC_EXPORT.to_owned())
}

} // verus!
