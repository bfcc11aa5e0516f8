//! VST2 scanner.
//!
//! Two-phase approach:
//!  1. Filesystem walk: finds every `.vst` bundle (macOS) or `.dll` (Windows)
//!     without executing any plugin code.
//!  2. Subprocess probe: a probe per bundle extracts name/vendor/category by
//!     calling `VSTPlugMain`. If the probe crashes, times out, or is absent, the
//!     scanner falls back to Info.plist + filename metadata.
use vstd::prelude::*;

use crate::db::KnownMtimes;
use crate::scanner::clap::{filled, non_empty};
use crate::scanner::{
    bundle_unchanged, either, fs_models, info_plist_fields, is_unchanged, or_text, paths_of,
    plugin_models, read_info_plist, ref_models, scan_nothing, walk, walk_bundles, FsModel, FsNode,
    Platform, PluginFormat, PluginModel, ScanError, ScanModel, ScannedPlugin, WalkFormat,
};
use crate::text::{first_of, texts};

verus! {

/// The name of a VST2 category number.
pub open spec fn category_name(cat: i32) -> Seq<char> {
    if cat == 1 {
        "Fx"@
    } else if cat == 2 {
        "Synth"@
    } else if cat == 3 {
        "Analysis"@
    } else if cat == 4 {
        "Mastering"@
    } else if cat == 5 {
        "Spacializer"@
    } else if cat == 6 {
        "RoomFx"@
    } else if cat == 7 {
        "SurroundFx"@
    } else if cat == 8 {
        "Restoration"@
    } else if cat == 9 {
        "OfflineProcess"@
    } else if cat == 10 {
        "Shell"@
    } else if cat == 11 {
        "Generator"@
    } else {
        "Unknown"@
    }
}

/// The record of a bundle: what the probe said, else the `Info.plist`, else the
/// name of the bundle.
pub open spec fn vst2_plugin(n: FsModel) -> PluginModel {
    let info = info_plist_fields(n.facts.info_plist);
    PluginModel {
        name: or_text(
            either(
                match n.facts.vst2_probe {
                    Some(p) => non_empty(p.name),
                    None => None,
                },
                info.0,
            ),
            n.stem,
        ),
        vendor: either(
            match n.facts.vst2_probe {
                Some(p) => non_empty(p.vendor),
                None => None,
            },
            info.2,
        ),
        version: info.1,
        category: match n.facts.vst2_probe {
            Some(p) => match p.category {
                Some(c) => Some(category_name(c)),
                None => None,
            },
            None => None,
        },
        class_id: None,
        path: n.path,
        format: PluginFormat::Vst2,
        file_mtime: n.mtime,
    }
}

/// What the bundles of a list bring. One that is known and unchanged is skipped.
pub open spec fn vst2_scan(bundles: Seq<FsModel>, known: Map<Seq<char>, i64>) -> ScanModel
    decreases bundles.len(),
{
    if bundles.len() == 0 {
        scan_nothing()
    } else {
        let before = vst2_scan(bundles.drop_last(), known);
        let n = bundles.last();
        if is_unchanged(known, n.path, n.mtime) {
            ScanModel { skipped: before.skipped + 1, ..before }
        } else {
            ScanModel { plugins: before.plugins.push(vst2_plugin(n)), ..before }
        }
    }
}

/// The name of a VST2 category number.
pub fn vst_category_str(cat: i32) -> (out: &'static str)
    ensures
        out@ == category_name(cat),
{
    match cat {
        1 => "Fx",
        2 => "Synth",
        3 => "Analysis",
        4 => "Mastering",
        5 => "Spacializer",
        6 => "RoomFx",
        7 => "SurroundFx",
        8 => "Restoration",
        9 => "OfflineProcess",
        10 => "Shell",
        11 => "Generator",
        _ => "Unknown",
    }
}

/// The record of a bundle: what the probe said, else the `Info.plist`, else the
/// name of the bundle.
pub fn build_plugin(bundle: &FsNode) -> (out: ScannedPlugin)
    ensures
        out@ == vst2_plugin(bundle.model()),
{
    let (plist_name, plist_version, plist_vendor) = read_info_plist(&bundle.facts.info_plist);
    let (probe_name, probe_vendor, category) = match &bundle.facts.vst2_probe {
        Some(p) => (
            filled(&p.name),
            filled(&p.vendor),
            match p.category {
                Some(c) => Some(vst_category_str(c).to_owned()),
                None => None,
            },
        ),
        None => (None, None, None),
    };
    let name = match first_of(probe_name, plist_name) {
        Some(n) => n,
        None => bundle.stem.clone(),
    };
    ScannedPlugin {
        name,
        vendor: first_of(probe_vendor, plist_vendor),
        version: plist_version,
        category,
        class_id: None,
        path: bundle.path.clone(),
        format: PluginFormat::Vst2,
        file_mtime: bundle.mtime,
    }
}

/// Scan the roots for VST2 plugins.
///
/// Bundles that are known with their present modification time are skipped.
/// Returns `(plugins, skipped, errors)`; there are never errors.
pub fn scan_vst2(roots: &Vec<FsNode>, platform: Platform, known: &KnownMtimes) -> (out: (
    Vec<ScannedPlugin>,
    usize,
    Vec<ScanError>,
))
    ensures
        ({
            let scan = vst2_scan(walk(fs_models(roots@), WalkFormat::Vst2, platform), known@);
            plugin_models(out.0@) == scan.plugins && out.1 == scan.skipped && out.2@.len() == 0
        }),
{
    let found = walk_bundles(roots, WalkFormat::Vst2, platform);
    let ghost all = ref_models(found@);
    let mut plugins: Vec<ScannedPlugin> = Vec::new();
    let mut skipped: usize = 0;
    assert(plugin_models(plugins@) =~= vst2_scan(all.take(0), known@).plugins);
    for i in 0..found.len()
        invariant
            all == ref_models(found@),
            skipped <= i,
            skipped == vst2_scan(all.take(i as int), known@).skipped,
            plugin_models(plugins@) == vst2_scan(all.take(i as int), known@).plugins,
    {
        let n = found[i];
        proof {
            let next = all.take(i + 1);
            assert(next.drop_last() =~= all.take(i as int));
            assert(next.last() == n.model());
        }
        if bundle_unchanged(known, n.path.as_str(), n.mtime) {
            skipped = skipped + 1;
        } else {
            let ghost before = plugin_models(plugins@);
            let p = build_plugin(n);
            plugins.push(p);
            assert(plugin_models(plugins@) =~= before.push(p@));
        }
    }
    assert(all.take(all.len() as int) =~= all);
    (plugins, skipped, Vec::new())
}

/// Walk the roots for VST2 bundle/file entries. Never executes plugin code.
pub fn walk_vst_bundles(roots: &Vec<FsNode>, platform: Platform) -> (out: Vec<String>)
    ensures
        texts(out@) == paths_of(walk(fs_models(roots@), WalkFormat::Vst2, platform)),
{
    crate::scanner::walk_vst2_bundles(roots, platform)
}

/// The name of the probe's program.
pub open spec fn probe_file(platform: Platform) -> Seq<char> {
    match platform {
        Platform::Windows => "patchbay-vst2-probe.exe"@,
        _ => "patchbay-vst2-probe"@,
    }
}

/// The name of the probe's program.
pub fn probe_name(platform: Platform) -> (out: &'static str)
    ensures
        out@ == probe_file(platform),
{
    match platform {
        Platform::Windows => "patchbay-vst2-probe.exe",
        _ => "patchbay-vst2-probe",
    }
}

// ---------------------------------------------------------------------------
// Laws
// ---------------------------------------------------------------------------

/// Every bundle is either recorded once or counted as skipped.
pub proof fn law_vst2_all_accounted(bundles: Seq<FsModel>, known: Map<Seq<char>, i64>)
    ensures
        vst2_scan(bundles, known).plugins.len() + vst2_scan(bundles, known).skipped
            == bundles.len(),
    decreases bundles.len(),
{
    if bundles.len() > 0 {
        law_vst2_all_accounted(bundles.drop_last(), known);
    }
}

/// Bundles that are all known with their present modification time are all
/// skipped.
pub proof fn law_vst2_unchanged_skipped(bundles: Seq<FsModel>, known: Map<Seq<char>, i64>)
    requires
        forall|i: int|
            0 <= i < bundles.len() ==> is_unchanged(
                known,
                (#[trigger] bundles[i]).path,
                bundles[i].mtime,
            ),
    ensures
        vst2_scan(bundles, known).plugins.len() == 0,
        vst2_scan(bundles, known).skipped == bundles.len(),
    decreases bundles.len(),
{
    if bundles.len() > 0 {
        assert forall|i: int| 0 <= i < bundles.drop_last().len() implies is_unchanged(
            known,
            (#[trigger] bundles.drop_last()[i]).path,
            bundles.drop_last()[i].mtime,
        ) by {
            assert(bundles.drop_last()[i] == bundles[i]);
        }
        assert(bundles.last() == bundles[bundles.len() - 1]);
        law_vst2_unchanged_skipped(bundles.drop_last(), known);
    }
}

} // verus!
