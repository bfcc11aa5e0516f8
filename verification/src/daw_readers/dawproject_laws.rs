//! What holds of every DAWproject file that is read.
use vstd::prelude::*;

use crate::archive::{zip_bytes, zip_text};
use crate::base64::encode;
use crate::daw_readers::dawproject::{
    archive_project, archive_states, channel_of, channel_paths, device_of, device_paths, devices_in,
    kind_of, paths_in, project_of, project_paths, state_from, state_paths, track_of, track_paths,
    tracks_in, xml_project, DawProjectError, ErrorModel, KindModel, ProjectModel,
};
use crate::number::parse_int;
use crate::selection::{chosen, is_selection, lemma_chosen};
use crate::text::eq_ignore_case;
use crate::xml::{attr, attr_or, child, child_attr, document, XmlKind, XmlModel};

verus! {

/// The tag is that of a plugin in one of the four formats.
pub open spec fn is_plugin_tag(tag: Seq<char>) -> bool {
    tag == "Vst3Plugin"@ || tag == "Vst2Plugin"@ || tag == "AuPlugin"@ || tag == "ClapPlugin"@
}

/// The four tags differ.
proof fn lemma_plugin_tags()
    ensures
        "Vst3Plugin"@ != "Vst2Plugin"@,
        "Vst3Plugin"@ != "AuPlugin"@,
        "Vst3Plugin"@ != "ClapPlugin"@,
        "Vst2Plugin"@ != "AuPlugin"@,
        "Vst2Plugin"@ != "ClapPlugin"@,
        "AuPlugin"@ != "ClapPlugin"@,
{
    reveal_strlit("Vst3Plugin");
    reveal_strlit("Vst2Plugin");
    reveal_strlit("AuPlugin");
    reveal_strlit("ClapPlugin");
    assert("Vst3Plugin"@[3] == '3' && "Vst2Plugin"@[3] == '2');
    assert("AuPlugin"@[0] == 'A' && "ClapPlugin"@[0] == 'C');
}

/// A device is a plugin of the format that its tag names, with what its attributes say of
/// it, and built in where its tag is any other.
pub proof fn law_kind(n: XmlModel)
    ensures
        n.tag == "Vst3Plugin"@ ==> kind_of(n) == (KindModel::Vst3 {
            device_id: attr_or(n, "deviceID"@, ""@),
            vendor: attr(n, "vendor"@),
            plugin_version: attr(n, "pluginVersion"@),
        }),
        n.tag == "Vst2Plugin"@ ==> (kind_of(n) matches KindModel::Vst2 {
            unique_id,
            vendor,
            plugin_version,
        } && {
            &&& vendor == attr(n, "vendor"@)
            &&& plugin_version == attr(n, "pluginVersion"@)
            &&& match attr(n, "uniqueId"@) {
                Some(v) => match parse_int(v, -0x8000_0000_0000_0000, 0x7fff_ffff_ffff_ffff) {
                    Some(x) => unique_id == x,
                    None => unique_id == 0,
                },
                None => unique_id == 0,
            }
        }),
        n.tag == "AuPlugin"@ ==> kind_of(n) == (KindModel::Au {
            type_code: attr_or(n, "type"@, ""@),
            sub_type: attr_or(n, "subType"@, ""@),
            manufacturer: attr_or(n, "manufacturer"@, ""@),
        }),
        n.tag == "ClapPlugin"@ ==> kind_of(n) == (KindModel::Clap {
            id: attr_or(n, "id"@, ""@),
            vendor: attr(n, "vendor"@),
            plugin_version: attr(n, "pluginVersion"@),
        }),
        kind_of(n) is Builtin <==> !is_plugin_tag(n.tag),
{
    lemma_plugin_tags();
}

/// A device has the name of its attribute, else its tag, and is on unless it says
/// `false`, in any case. Its state is that of the file that it refers to, where the file
/// is there.
pub proof fn law_device(n: XmlModel, states: spec_fn(Seq<char>) -> Option<Seq<u8>>)
    ensures
        ({
            let d = device_of(n, states);
            &&& d.name == attr_or(n, "name"@, n.tag)
            &&& d.kind == kind_of(n)
            &&& match child_attr(n, "Enabled"@, "value"@) {
                Some(v) => d.is_enabled <==> !eq_ignore_case(v, "false"@),
                None => d.is_enabled,
            }
            &&& match child_attr(n, "State"@, "path"@) {
                Some(path) => match states(path) {
                    Some(bytes) => d.opaque_state == Some(encode(bytes)),
                    None => d.opaque_state is None,
                },
                None => d.opaque_state is None,
            }
        }),
{
}

proof fn lemma_devices_in(
    items: Seq<XmlModel>,
    states: spec_fn(Seq<char>) -> Option<Seq<u8>>,
    n: int,
)
    requires
        0 <= n <= items.len(),
    ensures
        ({
            let at = chosen(n, |i: int| items[i].kind == XmlKind::Element);
            let found = devices_in(items.take(n), states);
            &&& found.len() == at.len()
            &&& forall|k: int|
                0 <= k < at.len() ==> #[trigger] found[k] == device_of(items[at[k]], states)
        }),
    decreases n,
{
    let keep = |i: int| items[i].kind == XmlKind::Element;
    if n > 0 {
        lemma_devices_in(items, states, n - 1);
        let part = items.take(n);
        assert(part.drop_last() =~= items.take(n - 1));
        assert(part.last() == items[n - 1]);
        assert(keep(n - 1) == (items[n - 1].kind == XmlKind::Element));
    }
}

/// A channel has a device for every element in its list of devices, in order.
pub proof fn law_channel(
    n: XmlModel,
    devs: XmlModel,
    states: spec_fn(Seq<char>) -> Option<Seq<u8>>,
) -> (at: Seq<int>)
    requires
        child(n, "Devices"@) == Some(devs),
    ensures
        is_selection(
            at,
            devs.children.len() as int,
            |i: int| devs.children[i].kind == XmlKind::Element,
        ),
        channel_of(n, states).devices.len() == at.len(),
        forall|k: int|
            0 <= k < at.len() ==> #[trigger] channel_of(n, states).devices[k] == device_of(
                devs.children[at[k]],
                states,
            ),
{
    let items = devs.children;
    let m = items.len() as int;
    let keep = |i: int| items[i].kind == XmlKind::Element;
    lemma_chosen(m, keep);
    lemma_devices_in(items, states, m);
    assert(items.take(m) =~= items);
    chosen(m, keep)
}

/// A channel without a list of devices has none. Its other fields are its attributes.
pub proof fn law_channel_fields(n: XmlModel, states: spec_fn(Seq<char>) -> Option<Seq<u8>>)
    ensures
        child(n, "Devices"@) is None ==> channel_of(n, states).devices.len() == 0,
        channel_of(n, states).id == attr(n, "id"@),
        channel_of(n, states).role == attr(n, "role"@),
        match attr(n, "audioChannels"@) {
            Some(v) => channel_of(n, states).audio_channels == parse_int(v, 0, 0xffff_ffff),
            None => channel_of(n, states).audio_channels is None,
        },
{
}

/// The element is that of a track.
pub open spec fn is_track(n: XmlModel) -> bool {
    n.kind == XmlKind::Element && n.tag == "Track"@
}

proof fn lemma_tracks_in(
    items: Seq<XmlModel>,
    states: spec_fn(Seq<char>) -> Option<Seq<u8>>,
    n: int,
)
    requires
        0 <= n <= items.len(),
    ensures
        ({
            let at = chosen(n, |i: int| is_track(items[i]));
            let found = tracks_in(items.take(n), states);
            &&& found.len() == at.len()
            &&& forall|k: int|
                0 <= k < at.len() ==> #[trigger] found[k] == track_of(items[at[k]], states)
        }),
    decreases n,
{
    let keep = |i: int| is_track(items[i]);
    if n > 0 {
        lemma_tracks_in(items, states, n - 1);
        let part = items.take(n);
        assert(part.drop_last() =~= items.take(n - 1));
        assert(part.last() == items[n - 1]);
        assert(keep(n - 1) == is_track(items[n - 1]));
    }
}

/// The tracks of a list are those of its `Track` elements, all of them, in order.
pub proof fn law_tracks(items: Seq<XmlModel>, states: spec_fn(Seq<char>) -> Option<Seq<u8>>) -> (at:
    Seq<int>)
    ensures
        is_selection(at, items.len() as int, |i: int| is_track(items[i])),
        tracks_in(items, states).len() == at.len(),
        forall|k: int|
            0 <= k < at.len() ==> #[trigger] tracks_in(items, states)[k] == track_of(
                items[at[k]],
                states,
            ),
{
    let n = items.len() as int;
    let keep = |i: int| is_track(items[i]);
    lemma_chosen(n, keep);
    lemma_tracks_in(items, states, n);
    assert(items.take(n) =~= items);
    chosen(n, keep)
}

/// A track has the fields of its attributes, its channel where it has one, and the tracks
/// that stand in it.
pub proof fn law_track(n: XmlModel, states: spec_fn(Seq<char>) -> Option<Seq<u8>>)
    ensures
        ({
            let t = track_of(n, states);
            &&& t.id == attr(n, "id"@)
            &&& t.name == attr_or(n, "name"@, ""@)
            &&& t.color == attr(n, "color"@)
            &&& t.content_type == attr(n, "contentType"@)
            &&& match child(n, "Channel"@) {
                Some(c) => t.channel == Some(channel_of(c, states)),
                None => t.channel is None,
            }
            &&& t.children == tracks_in(n.children, states)
        }),
{
}

/// A project has the version of its root, the application that it names, and the tracks
/// of its structure. Without a structure it has none.
pub proof fn law_project(root: XmlModel, states: spec_fn(Seq<char>) -> Option<Seq<u8>>)
    ensures
        ({
            let p = project_of(root, states);
            &&& p.version == attr_or(root, "version"@, ""@)
            &&& match child(root, "Application"@) {
                Some(a) => p.application == Some(
                    (attr_or(a, "name"@, ""@), attr_or(a, "version"@, ""@)),
                ),
                None => p.application is None,
            }
            &&& match child(root, "Structure"@) {
                Some(s) => p.tracks == tracks_in(s.children, states),
                None => p.tracks.len() == 0,
            }
        }),
{
}

/// A project is read from the document `project.xml` of the archive, and the states of
/// its devices from the files of the archive.
pub proof fn law_archive(data: Seq<u8>, xml: Seq<char>, path: Seq<char>)
    ensures
        zip_text(data, "project.xml"@) matches Ok(text) ==> match document(text) {
            Ok(root) => archive_project(data) == Ok::<ProjectModel, ErrorModel>(
                project_of(root, archive_states(data)),
            ),
            Err(e) => archive_project(data) == Err::<ProjectModel, ErrorModel>(ErrorModel::Xml(e)),
        },
        zip_text(data, "project.xml"@) is Err ==> archive_project(data) is Err,
        archive_states(data)(path) == zip_bytes(data, path),
        document(xml) matches Ok(root) ==> xml_project(xml, archive_states(data)) == Ok::<
            ProjectModel,
            ErrorModel,
        >(project_of(root, archive_states(data))),
{
}

/// State files in memory are found by their paths, the first with a path.
pub proof fn law_state_files(
    files: Seq<(String, Vec<u8>)>,
    path: Seq<char>,
    i: int,
) -> (k: int)
    requires
        0 <= i <= files.len(),
    ensures
        match state_from(files, path, i) {
            Some(b) => i <= k < files.len() && files[k].0@ == path && files[k].1@ == b
                && forall|j: int| i <= j < k ==> (#[trigger] files[j]).0@ != path,
            None => forall|j: int| i <= j < files.len() ==> (#[trigger] files[j]).0@ != path,
        },
    decreases files.len() - i,
{
    if i < files.len() && files[i].0@ != path {
        law_state_files(files, path, i + 1)
    } else {
        i
    }
}

// ---------------------------------------------------------------------------
// Paths of states
// ---------------------------------------------------------------------------

/// The paths of two lists of devices are those of the one and then those of the other.
/// One device gives the path that it refers to, where it refers to one.
pub proof fn law_device_paths(a: Seq<XmlModel>, b: Seq<XmlModel>, one: XmlModel)
    ensures
        device_paths(a + b) == device_paths(a) + device_paths(b),
        one.kind != XmlKind::Element ==> device_paths(seq![one]).len() == 0,
        one.kind == XmlKind::Element ==> match child_attr(one, "State"@, "path"@) {
            Some(path) => device_paths(seq![one]) == seq![path],
            None => device_paths(seq![one]).len() == 0,
        },
    decreases b.len(),
{
    let single = seq![one];
    assert(single.last() == one);
    assert(device_paths(single.drop_last()) =~= Seq::empty());
    assert(Seq::<Seq<char>>::empty() + state_paths(one) =~= state_paths(one));
    if b.len() == 0 {
        assert(a + b =~= a);
        assert(device_paths(a) + device_paths(b) =~= device_paths(a));
    } else {
        law_device_paths(a, b.drop_last(), one);
        assert((a + b).drop_last() =~= a + b.drop_last());
        assert((a + b).last() == b.last());
        assert(device_paths(a + b) =~= device_paths(a) + device_paths(b));
    }
}

/// The paths of two lists of tracks are those of the one and then those of the other. One
/// track gives those of its channel, then those of the tracks in it.
pub proof fn law_track_paths(a: Seq<XmlModel>, b: Seq<XmlModel>, one: XmlModel)
    ensures
        paths_in(a + b) == paths_in(a) + paths_in(b),
        !is_track(one) ==> paths_in(seq![one]).len() == 0,
        is_track(one) ==> match child(one, "Channel"@) {
            Some(c) => paths_in(seq![one]) == channel_paths(c) + paths_in(one.children),
            None => paths_in(seq![one]) == paths_in(one.children),
        },
    decreases b.len(),
{
    let single = seq![one];
    assert(single.last() == one);
    assert(paths_in(single.drop_last()) =~= Seq::empty());
    assert(Seq::<Seq<char>>::empty() + track_paths(one) =~= track_paths(one));
    assert(Seq::<Seq<char>>::empty() + paths_in(one.children) =~= paths_in(one.children));
    if b.len() == 0 {
        assert(a + b =~= a);
        assert(paths_in(a) + paths_in(b) =~= paths_in(a));
    } else {
        law_track_paths(a, b.drop_last(), one);
        assert((a + b).drop_last() =~= a + b.drop_last());
        assert((a + b).last() == b.last());
        assert(paths_in(a + b) =~= paths_in(a) + paths_in(b));
    }
}

/// The paths of a project are those of the tracks of its structure, and those of a channel
/// those of its devices.
pub proof fn law_project_paths(root: XmlModel, n: XmlModel)
    ensures
        match child(root, "Structure"@) {
            Some(s) => project_paths(root) == paths_in(s.children),
            None => project_paths(root).len() == 0,
        },
        match child(n, "Devices"@) {
            Some(devs) => channel_paths(n) == device_paths(devs.children),
            None => channel_paths(n).len() == 0,
        },
{
}

/// An error says what failed, and then why.
pub proof fn law_error_text(e: DawProjectError)
    ensures
        e matches DawProjectError::Io(t) ==> e.text() == "I/O error: "@ + t@,
        e matches DawProjectError::Zip(t) ==> e.text() == "ZIP error: "@ + t@,
        e matches DawProjectError::Xml(t) ==> e.text() == "XML error: "@ + t@,
        e matches DawProjectError::Format(t) ==> e.text() == "Format error: "@ + t@,
{
}

} // verus!
