//! CLAP plugin scanner.
//!
//! CLAP bundles expose a `clap_entry` symbol through which a factory returns
//! one or more plugin descriptors. Querying that entry requires loading the
//! binary, so a probe in a process of its own does it.
//!
//! One `.clap` bundle can export multiple plugins, so `scan_clap` may return
//! more `ScannedPlugin`s than bundles found.
//!
//! When the probe is absent, crashes, or times out, we fall back to bundle
//! filename and Info.plist (macOS) for a single best-effort record.
use vstd::prelude::*;

use crate::db::KnownMtimes;
use crate::scanner::{
    bundle_unchanged, either, fs_models, info_plist_fields, is_unchanged, or_text, paths_of,
    plist_plugin, plugin_from_plist, plugin_models, read_info_plist, ref_models, scan_nothing,
    walk, walk_bundles, FsModel, FsNode, Platform, PluginFormat, PluginModel, ProbeDescriptor,
    ScanError, ScanModel, ScannedPlugin, WalkFormat,
};
use crate::text::{first_of, join, joined, opt_text, texts};

verus! {

/// `s`, where it is present and not empty.
pub open spec fn non_empty(s: Option<String>) -> Option<Seq<char>> {
    match s {
        Some(t) => if t@.len() > 0 {
            Some(t@)
        } else {
            None
        },
        None => None,
    }
}

/// The record of one plugin of a bundle that a probe described.
pub open spec fn probed_plugin(n: FsModel, desc: ProbeDescriptor) -> PluginModel {
    let info = info_plist_fields(n.facts.info_plist);
    PluginModel {
        name: or_text(either(non_empty(desc.name), info.0), n.stem),
        vendor: either(non_empty(desc.vendor), info.2),
        version: either(non_empty(desc.version), info.1),
        category: if desc.features@.len() == 0 {
            None
        } else {
            Some(join(texts(desc.features@), "|"@))
        },
        class_id: non_empty(desc.id),
        path: n.path,
        format: PluginFormat::Clap,
        file_mtime: n.mtime,
    }
}

/// The records of a bundle: one for each plugin that the probe described, or one
/// where it described none.
pub open spec fn bundle_plugins(n: FsModel) -> Seq<PluginModel> {
    match n.facts.clap_probe {
        Some(descs) => if descs@.len() > 0 {
            descs@.map_values(|d: ProbeDescriptor| probed_plugin(n, d))
        } else {
            seq![plist_plugin(n, PluginFormat::Clap)]
        },
        None => seq![plist_plugin(n, PluginFormat::Clap)],
    }
}

/// What the bundles of a list bring. One that is known and unchanged is skipped.
pub open spec fn clap_scan(bundles: Seq<FsModel>, known: Map<Seq<char>, i64>) -> ScanModel
    decreases bundles.len(),
{
    if bundles.len() == 0 {
        scan_nothing()
    } else {
        let before = clap_scan(bundles.drop_last(), known);
        let n = bundles.last();
        if is_unchanged(known, n.path, n.mtime) {
            ScanModel { skipped: before.skipped + 1, ..before }
        } else {
            ScanModel { plugins: before.plugins + bundle_plugins(n), ..before }
        }
    }
}

/// `s`, where it is present and not empty.
pub fn filled(s: &Option<String>) -> (out: Option<String>)
    ensures
        opt_text(out) == non_empty(*s),
{
    match s {
        Some(t) => if t.as_str().is_empty() {
            None
        } else {
            Some(t.clone())
        },
        None => None,
    }
}

/// The record of one plugin of a bundle that a probe described.
pub fn build_from_probe(bundle: &FsNode, desc: &ProbeDescriptor) -> (out: ScannedPlugin)
    ensures
        out@ == probed_plugin(bundle.model(), *desc),
{
    let (plist_name, plist_version, plist_vendor) = read_info_plist(&bundle.facts.info_plist);
    let name = match first_of(filled(&desc.name), plist_name) {
        Some(n) => n,
        None => bundle.stem.clone(),
    };
    let category = if desc.features.len() == 0 {
        None
    } else {
        Some(joined(desc.features.as_slice(), "|"))
    };
    ScannedPlugin {
        name,
        vendor: first_of(filled(&desc.vendor), plist_vendor),
        version: first_of(filled(&desc.version), plist_version),
        category,
        class_id: filled(&desc.id),
        path: bundle.path.clone(),
        format: PluginFormat::Clap,
        file_mtime: bundle.mtime,
    }
}

/// The record of a bundle that no probe described.
pub fn build_fallback(bundle: &FsNode) -> (out: ScannedPlugin)
    ensures
        out@ == plist_plugin(bundle.model(), PluginFormat::Clap),
{
    plugin_from_plist(bundle, PluginFormat::Clap)
}

/// Push one `ScannedPlugin` per probe descriptor. Falls back to a single
/// filename/plist record when descriptors are absent or empty.
pub fn extend_plugins(bundle: &FsNode, out: &mut Vec<ScannedPlugin>)
    ensures
        plugin_models(final(out)@) == plugin_models(old(out)@) + bundle_plugins(bundle.model()),
{
    let ghost start = plugin_models(out@);
    let ghost n = bundle.model();
    if let Some(descs) = &bundle.facts.clap_probe {
        if descs.len() > 0 {
            let ghost all = bundle_plugins(n);
            assert(start + all.take(0) =~= start);
            for i in 0..descs.len()
                invariant
                    n == bundle.model(),
                    all == bundle_plugins(n),
                    n.facts.clap_probe == Some(*descs),
                    descs@.len() > 0,
                    plugin_models(out@) == start + all.take(i as int),
            {
                let ghost before = plugin_models(out@);
                let p = build_from_probe(bundle, &descs[i]);
                out.push(p);
                assert(plugin_models(out@) =~= before.push(p@));
                assert(plugin_models(out@) =~= start + all.take(i + 1));
            }
            assert(all.take(all.len() as int) =~= all);
            return ;
        }
    }
    let p = build_fallback(bundle);
    out.push(p);
    assert(plugin_models(out@) =~= start + seq![p@]);
}

/// Scan the roots for CLAP plugins.
///
/// Bundles that are known with their present modification time are skipped.
/// Returns `(plugins, skipped, errors)`; there are never errors.
pub fn scan_clap(roots: &Vec<FsNode>, platform: Platform, known: &KnownMtimes) -> (out: (
    Vec<ScannedPlugin>,
    usize,
    Vec<ScanError>,
))
    ensures
        ({
            let scan = clap_scan(walk(fs_models(roots@), WalkFormat::Clap, platform), known@);
            plugin_models(out.0@) == scan.plugins && out.1 == scan.skipped && out.2@.len() == 0
        }),
{
    let found = walk_bundles(roots, WalkFormat::Clap, platform);
    let ghost all = ref_models(found@);
    let mut plugins: Vec<ScannedPlugin> = Vec::new();
    let mut skipped: usize = 0;
    assert(plugin_models(plugins@) =~= clap_scan(all.take(0), known@).plugins);
    for i in 0..found.len()
        invariant
            all == ref_models(found@),
            skipped <= i,
            skipped == clap_scan(all.take(i as int), known@).skipped,
            plugin_models(plugins@) == clap_scan(all.take(i as int), known@).plugins,
    {
        let n = found[i];
        proof {
            let next = all.take(i + 1);
            assert(next.drop_last() =~= all.take(i as int));
            assert(next.last() == n.model());
        }
        if bundle_unchanged(known, n.path.as_str(), n.mtime) {
            skipped = skipped + 1;
        } else {
            extend_plugins(n, &mut plugins);
        }
    }
    assert(all.take(all.len() as int) =~= all);
    (plugins, skipped, Vec::new())
}

/// Walk the roots for CLAP bundle/file entries. Never executes plugin code.
pub fn walk_clap_bundles(roots: &Vec<FsNode>, platform: Platform) -> (out: Vec<String>)
    ensures
        texts(out@) == paths_of(walk(fs_models(roots@), WalkFormat::Clap, platform)),
{
    crate::scanner::walk_clap_bundles(roots, platform)
}

/// The name of the probe's program.
pub open spec fn probe_file(platform: Platform) -> Seq<char> {
    match platform {
        Platform::Windows => "patchbay-clap-probe.exe"@,
        _ => "patchbay-clap-probe"@,
    }
}

/// The name of the probe's program.
pub fn probe_name(platform: Platform) -> (out: &'static str)
    ensures
        out@ == probe_file(platform),
{
    match platform {
        Platform::Windows => "patchbay-clap-probe.exe",
        _ => "patchbay-clap-probe",
    }
}

// ---------------------------------------------------------------------------
// Laws
// ---------------------------------------------------------------------------

/// Every bundle is either counted as skipped or brings at least one record.
pub proof fn law_clap_all_accounted(bundles: Seq<FsModel>, known: Map<Seq<char>, i64>)
    ensures
        clap_scan(bundles, known).plugins.len() + clap_scan(bundles, known).skipped
            >= bundles.len(),
        clap_scan(bundles, known).skipped <= bundles.len(),
    decreases bundles.len(),
{
    if bundles.len() > 0 {
        law_clap_all_accounted(bundles.drop_last(), known);
    }
}

/// Bundles that are all known with their present modification time are all
/// skipped.
pub proof fn law_clap_unchanged_skipped(bundles: Seq<FsModel>, known: Map<Seq<char>, i64>)
    requires
        forall|i: int|
            0 <= i < bundles.len() ==> is_unchanged(
                known,
                (#[trigger] bundles[i]).path,
                bundles[i].mtime,
            ),
    ensures
        clap_scan(bundles, known).plugins.len() == 0,
        clap_scan(bundles, known).skipped == bundles.len(),
    decreases bundles.len(),
{
    if bundles.len() > 0 {
        assert forall|i: int| 0 <= i < bundles.drop_last().len() implies is_unchanged(
            known,
            (#[trigger] bundles.drop_last()[i]).path,
            bundles.drop_last()[i].mtime,
        ) by {
            assert(bundles.drop_last()[i] == bundles[i]);
        }
        assert(bundles.last() == bundles[bundles.len() - 1]);
        law_clap_unchanged_skipped(bundles.drop_last(), known);
    }
}

} // verus!
