//! Turns scanned plugins into records of the plugin table.
use vstd::prelude::*;

use crate::db::PluginRecord;
use crate::new_sync_id;
use crate::scanner::{PluginModel, ScannedPlugin};
use crate::text::{copy_opt, first_of, opt_text};

verus! {

/// The record holds the plugin for the device.
pub open spec fn records(r: PluginRecord, p: PluginModel, device_id: Seq<char>) -> bool {
    &&& r.name@ == p.name
    &&& opt_text(r.vendor) == p.vendor
    &&& r.format@ == p.format.text()
    &&& r.path@ == p.path
    &&& opt_text(r.version) == p.version
    &&& opt_text(r.class_id) == p.class_id
    &&& opt_text(r.category) == p.category
    &&& r.device_id@ == device_id
    &&& r.file_mtime == p.file_mtime
}

/// The record of a scanned plugin under an identifier.
pub fn plugin_record(plugin: &ScannedPlugin, sync_id: String, device_id: &str) -> (out: PluginRecord)
    ensures
        out.sync_id@ == sync_id@,
        records(out, plugin@, device_id@),
{
    PluginRecord {
        sync_id,
        name: plugin.name.clone(),
        vendor: copy_opt(&plugin.vendor),
        format: plugin.format.as_str().to_owned(),
        path: plugin.path.clone(),
        version: copy_opt(&plugin.version),
        class_id: copy_opt(&plugin.class_id),
        category: copy_opt(&plugin.category),
        device_id: device_id.to_owned(),
        file_mtime: plugin.file_mtime,
    }
}

/// The records to write for the scanned plugins of a device, one for each in their
/// order, each under a new identifier.
pub fn index_plugins(plugins: &Vec<ScannedPlugin>, device_id: &str) -> (out: Vec<PluginRecord>)
    ensures
        out@.len() == plugins@.len(),
        forall|i: int|
            #![trigger out@[i]]
            0 <= i < out@.len() ==> records(out@[i], plugins@[i]@, device_id@)
                && crate::is_sync_id(out@[i].sync_id@),
{
    let mut out: Vec<PluginRecord> = Vec::new();
    for i in 0..plugins.len()
        invariant
            out@.len() == i,
            forall|k: int|
                #![trigger out@[k]]
                0 <= k < out@.len() ==> records(out@[k], plugins@[k]@, device_id@)
                    && crate::is_sync_id(out@[k].sync_id@),
    {
        out.push(plugin_record(&plugins[i], new_sync_id(), device_id));
    }
    out
}

/// The name of the device: that of the computer, else that of the host, else `local`.
pub fn device_id(computer: Option<String>, host: Option<String>) -> (out: String)
    ensures
        out@ == match (opt_text(computer), opt_text(host)) {
            (Some(c), _) => c,
            (None, Some(h)) => h,
            (None, None) => "local"@,
        },
{
    match first_of(computer, host) {
        Some(name) => name,
        None => "local".to_owned(),
    }
}

} // verus!
