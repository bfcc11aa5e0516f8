//! What the scans of all formats bring together.
use vstd::prelude::*;

use crate::scanner::{ScanError, ScannedPlugin};
use crate::text::texts;

verus! {

/// What some scans have brought.
#[derive(Debug)]
pub struct ScanTotal {
    pub plugins: Vec<ScannedPlugin>,
    /// How many bundles did not change since they were last scanned.
    pub skipped: usize,
    /// The messages of the errors.
    pub errors: Vec<String>,
}

/// The message of each error.
pub open spec fn messages(errors: Seq<ScanError>) -> Seq<Seq<char>> {
    errors.map_values(|e: ScanError| e.text())
}

impl ScanTotal {
    /// What no scan has brought.
    pub fn new() -> (out: ScanTotal)
        ensures
            out.plugins@.len() == 0,
            out.skipped == 0,
            out.errors@.len() == 0,
    {
        ScanTotal { plugins: Vec::new(), skipped: 0, errors: Vec::new() }
    }

    /// Adds what one more scan has brought, behind what is there.
    pub fn gather(&mut self, scan: (Vec<ScannedPlugin>, usize, Vec<ScanError>))
        requires
            old(self).skipped + scan.1 <= usize::MAX,
        ensures
            final(self).plugins@ == old(self).plugins@ + scan.0@,
            final(self).skipped == old(self).skipped + scan.1,
            texts(final(self).errors@) == texts(old(self).errors@) + messages(scan.2@),
    {
        let (found, skipped, errors) = scan;
        let mut found = found;
        let ghost before = texts(self.errors@);
        self.plugins.append(&mut found);
        self.skipped = self.skipped + skipped;
        assert(messages(errors@.take(0)) =~= Seq::<Seq<char>>::empty());
        assert(before + messages(errors@.take(0)) =~= before);
        for i in 0..errors.len()
            invariant
                self.plugins@ == old(self).plugins@ + scan.0@,
                self.skipped == old(self).skipped + scan.1,
                texts(self.errors@) == before + messages(errors@.take(i as int)),
        {
            let ghost so_far = self.errors@;
            self.errors.push(errors[i].message());
            proof {
                let next = errors@.take(i + 1);
                assert(messages(next) =~= messages(errors@.take(i as int)).push(errors@[i as int].text()));
                assert(texts(self.errors@) =~= texts(so_far).push(errors@[i as int].text()));
                assert(texts(self.errors@) =~= before + messages(next));
            }
        }
        assert(errors@.take(errors@.len() as int) =~= errors@);
    }
}

} // verus!
