//! What holds of every Logic project that is read.
use vstd::prelude::*;

use crate::bytes::{find_bytes, find_bytes_from, latin_chars};
use crate::daw_readers::logicpro::{
    associated_tracks, aupreset_device, code_char, devices_of, first_signal, four_cc_text,
    is_alphanumeric, is_letter, is_name_candidate, is_printable, last_candidate, legacy_device,
    legacy_devices, law_nearest_track, law_sorted_traks, legacy_track, legacy_tracks, lesser,
    name_at, name_from, owner, package_project, plugin_name, preset_device, printable_text,
    project_content, qesm_name, slot_window, slots_from, sorted_traks, tracks_with_devices,
    trak_name, traks_from, unassociated_devices, widget_name, widget_part_from, KindModel,
    LogicError, LogicPackage, PackageFile, SignalModel, SlotModel, TrackKind, TrakModel, BPLIST,
    GAME, LOGIC_MAGIC, PLIST_END, QESM, TRAK, UCUA, XML,
};
use crate::property_list::{
    as_boolean, as_data, as_integer, as_text, elements, entry, entry_from, plist_document,
    ItemModel, PlistModel,
};
use crate::selection::{chosen, is_selection, lemma_chosen};
use crate::text::{
    contains_text, is_whitespace, lemma_find_from_is, parts, stands_at, trim, trim_start,
};
use crate::text_laws::{is_blank, law_first_part, law_one_part, law_whitespace};

verus! {

// ---------------------------------------------------------------------------
// Names of plugins
// ---------------------------------------------------------------------------

/// The byte is a printable ASCII character.
pub open spec fn is_seen(b: u8) -> bool {
    0x20 <= b <= 0x7e
}

/// The bytes from `i` to before `j` are printable, and none beside them is.
pub open spec fn is_run(bytes: Seq<u8>, i: int, j: int) -> bool {
    &&& 0 <= i <= j <= bytes.len()
    &&& forall|k: int| i <= k < j ==> is_seen(#[trigger] bytes[k])
    &&& i == 0 || !is_seen(bytes[i - 1])
    &&& j == bytes.len() || !is_seen(bytes[j])
}

/// The text of the bytes from `i` to before `j`, without white space round it.
pub open spec fn run_text(bytes: Seq<u8>, i: int, j: int) -> Seq<char> {
    trim(Seq::new((j - i) as nat, |k: int| bytes[i + k] as char))
}

/// The text reads as the name of a plugin: four characters or more with a letter among
/// them, none of the words that Logic writes itself, and not twelve letters and digits.
pub open spec fn reads_as_name(s: Seq<char>) -> bool {
    &&& s.len() >= 4
    &&& exists|i: int|
        0 <= i < s.len() && ('a' <= #[trigger] s[i] <= 'z' || 'A' <= s[i] <= 'Z')
    &&& !contains_text(s, "Untitled"@)
    &&& !contains_text(s, "aupreset"@)
    &&& !contains_text(s, "#Custom"@)
    &&& !contains_text(s, "#default"@)
    &&& !contains_text(s, "46ia"@)
    &&& !(s.len() == 12 && forall|i: int|
        0 <= i < s.len() ==> ('a' <= #[trigger] s[i] <= 'z' || 'A' <= s[i] <= 'Z' || '0' <= s[i]
            <= '9'))
}

/// No run that begins at `from` or behind reads as a name.
pub open spec fn no_name_from(bytes: Seq<u8>, from: int) -> bool {
    forall|i: int, j: int|
        from <= i && #[trigger] is_run(bytes, i, j) ==> !reads_as_name(run_text(bytes, i, j))
}

proof fn lemma_candidate(s: Seq<char>)
    ensures
        is_name_candidate(s) == reads_as_name(s),
{
    lemma_letters(s);
}

/// Letters and digits are those of ASCII.
proof fn lemma_letters(s: Seq<char>)
    ensures
        (exists|i: int|
            0 <= i < s.len() && is_letter(#[trigger] s[i])) == (
        exists|i: int| 0 <= i < s.len() && ('a' <= #[trigger] s[i] <= 'z' || 'A' <= s[i] <= 'Z')),
        (forall|i: int|
            0 <= i < s.len() ==> is_alphanumeric(#[trigger] s[i]))
            == (forall|i: int|
            0 <= i < s.len() ==> ('a' <= #[trigger] s[i] <= 'z' || 'A' <= s[i] <= 'Z' || '0' <= s[i]
                <= '9')),
{
}

proof fn lemma_last_candidate(x: Seq<char>, rest: Seq<Seq<char>>)
    ensures
        last_candidate(seq![x] + rest) == (if last_candidate(rest) is Some {
            last_candidate(rest)
        } else if is_name_candidate(trim(x)) {
            Some(trim(x))
        } else {
            None
        }),
    decreases rest.len(),
{
    let all = seq![x] + rest;
    if rest.len() == 0 {
        assert(all =~= seq![x]);
        assert(all.last() == x);
        assert(last_candidate(all.drop_last()) is None);
    } else {
        lemma_last_candidate(x, rest.drop_last());
        assert(all.drop_last() =~= seq![x] + rest.drop_last());
        assert(all.last() == rest.last());
    }
}

/// The first byte at or after `i` that is not printable, or the length.
spec fn run_end(bytes: Seq<u8>, i: int) -> int
    decreases bytes.len() - i,
{
    if i >= bytes.len() || !is_seen(bytes[i]) {
        i
    } else {
        run_end(bytes, i + 1)
    }
}

proof fn lemma_run_end(bytes: Seq<u8>, i: int)
    requires
        0 <= i <= bytes.len(),
    ensures
        i <= run_end(bytes, i) <= bytes.len(),
        forall|k: int| i <= k < run_end(bytes, i) ==> is_seen(#[trigger] bytes[k]),
        run_end(bytes, i) < bytes.len() ==> !is_seen(bytes[run_end(bytes, i)]),
    decreases bytes.len() - i,
{
    if i < bytes.len() && is_seen(bytes[i]) {
        lemma_run_end(bytes, i + 1);
    }
}

/// The name before the state of a plugin is the last run of printable bytes that reads as
/// a name. There is none only where no run does.
pub proof fn law_plugin_name(bytes: Seq<u8>) -> (at: (int, int))
    ensures
        match plugin_name(bytes) {
            Some(n) => is_run(bytes, at.0, at.1) && n == run_text(bytes, at.0, at.1)
                && reads_as_name(n) && no_name_from(bytes, at.1 + 1),
            None => no_name_from(bytes, 0),
        },
    decreases bytes.len(),
{
    lemma_run_end(bytes, 0);
    let e = run_end(bytes, 0);
    let zero = 0u8 as char;
    let text = printable_text(bytes);
    let head = text.take(e);
    let run = Seq::new((e - 0) as nat, |k: int| bytes[0 + k] as char);
    assert(head =~= run);
    assert forall|k: int| 0 <= k < head.len() implies #[trigger] head[k] != zero by {
        assert(is_seen(bytes[k]));
    }
    assert(trim(head) == run_text(bytes, 0, e));
    lemma_candidate(trim(head));
    if e == bytes.len() {
        assert(text =~= head);
        law_one_part(head, zero);
        let none = Seq::<Seq<char>>::empty();
        lemma_last_candidate(head, none);
        assert(seq![head] + none =~= seq![head]);
        assert forall|i: int, j: int| #[trigger] is_run(bytes, i, j) && 0 <= i implies i == 0 && j
            == e || i >= e + 1 by {
            lemma_only_run(bytes, e, i, j);
        }
        (0, e)
    } else {
        let rest = bytes.skip(e + 1);
        let at = law_plugin_name(rest);
        assert(text[e] == zero);
        assert(printable_text(rest) =~= text.skip(e + 1));
        assert(text =~= head + seq![zero] + printable_text(rest));
        law_first_part(head, zero, printable_text(rest));
        lemma_last_candidate(head, parts(printable_text(rest), zero));
        assert forall|i: int, j: int| #[trigger] is_run(bytes, i, j) && 0 <= i implies (i == 0 && j
            == e) || (i >= e + 1 && is_run(rest, i - e - 1, j - e - 1) && run_text(bytes, i, j)
            == run_text(rest, i - e - 1, j - e - 1)) by {
            lemma_only_run(bytes, e, i, j);
            if i >= e + 1 {
                lemma_run_skip(bytes, e + 1, i, j);
            }
        }
        if plugin_name(rest) is Some {
            lemma_run_back(bytes, e + 1, at.0, at.1);
            let out = (at.0 + e + 1, at.1 + e + 1);
            assert forall|i: int, j: int| out.1 + 1 <= i && #[trigger] is_run(
                bytes,
                i,
                j,
            ) implies !reads_as_name(run_text(bytes, i, j)) by {
                assert(is_run(rest, i - e - 1, j - e - 1));
            }
            out
        } else {
            assert(is_run(bytes, 0, e));
            assert forall|i: int, j: int| e + 1 <= i && #[trigger] is_run(
                bytes,
                i,
                j,
            ) implies !reads_as_name(run_text(bytes, i, j)) by {
                assert(is_run(rest, i - e - 1, j - e - 1));
            }
            (0, e)
        }
    }
}

/// A run is the first, or begins behind the byte that ends the first.
proof fn lemma_only_run(bytes: Seq<u8>, e: int, i: int, j: int)
    requires
        0 <= e <= bytes.len(),
        forall|k: int| 0 <= k < e ==> is_seen(#[trigger] bytes[k]),
        e < bytes.len() ==> !is_seen(bytes[e]),
        is_run(bytes, i, j),
    ensures
        (i == 0 && j == e) || i >= e + 1,
{
    if i <= e {
        if i > 0 {
            assert(is_seen(bytes[i - 1]));
        }
        if j > e {
            assert(is_seen(bytes[e]));
        }
        if j < e {
            assert(is_seen(bytes[j]));
        }
    }
}

/// A run behind a byte that is not printable is one of what follows the byte.
proof fn lemma_run_skip(bytes: Seq<u8>, n: int, i: int, j: int)
    requires
        0 < n <= i,
        n <= bytes.len(),
        is_run(bytes, i, j),
    ensures
        is_run(bytes.skip(n), i - n, j - n),
        run_text(bytes.skip(n), i - n, j - n) == run_text(bytes, i, j),
{
    let rest = bytes.skip(n);
    assert forall|k: int| i - n <= k < j - n implies is_seen(#[trigger] rest[k]) by {
        assert(rest[k] == bytes[k + n]);
    }
    assert(Seq::new((j - i) as nat, |k: int| bytes[i + k] as char) =~= Seq::new(
        (j - n - (i - n)) as nat,
        |k: int| rest[i - n + k] as char,
    ));
}

/// And the other way round.
proof fn lemma_run_back(bytes: Seq<u8>, n: int, i: int, j: int)
    requires
        0 < n <= bytes.len(),
        !is_seen(bytes[n - 1]),
        is_run(bytes.skip(n), i, j),
    ensures
        is_run(bytes, i + n, j + n),
        run_text(bytes.skip(n), i, j) == run_text(bytes, i + n, j + n),
{
    let rest = bytes.skip(n);
    assert forall|k: int| i + n <= k < j + n implies is_seen(#[trigger] bytes[k]) by {
        assert(rest[k - n] == bytes[k]);
    }
    if i > 0 {
        assert(rest[i - 1] == bytes[i + n - 1]);
    }
    if j < rest.len() {
        assert(rest[j] == bytes[j + n]);
    }
    assert(Seq::new((j - i) as nat, |k: int| rest[i + k] as char) =~= Seq::new(
        (j + n - (i + n)) as nat,
        |k: int| bytes[i + n + k] as char,
    ));
}

/// The last run that reads as a name is the plugin's name.
pub proof fn law_plugin_name_is(bytes: Seq<u8>, i: int, j: int)
    requires
        is_run(bytes, i, j),
        reads_as_name(run_text(bytes, i, j)),
        no_name_from(bytes, j + 1),
    ensures
        plugin_name(bytes) == Some(run_text(bytes, i, j)),
{
    let at = law_plugin_name(bytes);
    if plugin_name(bytes) is Some {
        if at.0 > j {
            assert(is_run(bytes, at.0, at.1));
        } else if at.1 < i {
            assert(is_run(bytes, i, j));
        } else {
            if at.0 < i {
                assert(is_seen(bytes[i - 1]) || at.1 == i);
                if at.1 == i && at.0 < at.1 {
                    assert(bytes[at.1 - 1] == bytes[i - 1]);
                }
            }
            if i < at.0 {
                assert(is_seen(bytes[at.0 - 1]));
            }
            if at.1 < j {
                assert(is_seen(bytes[at.1]));
            }
            if j < at.1 {
                assert(is_seen(bytes[j]));
            }
        }
    } else {
        assert(is_run(bytes, i, j));
    }
}

// ---------------------------------------------------------------------------
// Widgets
// ---------------------------------------------------------------------------

/// A text whose first part begins with `WIDGET` names the widget behind the first `=` of
/// that part, without white space round the name. An empty name is none.
pub proof fn law_widget(pad: Seq<char>, mid: Seq<char>, value: Seq<char>, rest: Seq<char>)
    requires
        is_blank(pad),
        forall|i: int| 0 <= i < pad.len() ==> #[trigger] pad[i] != '=' && pad[i] != ';',
        forall|i: int| 0 <= i < mid.len() ==> #[trigger] mid[i] != '=' && mid[i] != ';',
        forall|i: int| 0 <= i < value.len() ==> #[trigger] value[i] != ';',
    ensures
        ({
            let part = pad + "WIDGET"@ + mid + seq!['='] + value;
            &&& trim(value).len() > 0 ==> widget_name(part) == Some(trim(value)) && widget_name(
                part + seq![';'] + rest,
            ) == Some(trim(value))
            &&& trim(value).len() == 0 ==> widget_name(part) is None && widget_name(
                part + seq![';'] + rest,
            ) is None
        }),
{
    reveal_strlit("WIDGET");
    let word = "WIDGET"@;
    let part = pad + word + mid + seq!['='] + value;
    let n = (pad.len() + word.len() + mid.len()) as int;
    assert forall|i: int| 0 <= i < part.len() implies #[trigger] part[i] != ';' by {
        if i < pad.len() {
            assert(part[i] == pad[i]);
        } else if pad.len() + 6 <= i < n {
            assert(part[i] == mid[i - pad.len() - 6]);
        } else if n < i {
            assert(part[i] == value[i - n - 1]);
        }
    }
    law_one_part(part, ';');
    law_first_part(part, ';', rest);
    assert forall|i: int| 0 <= i < n implies part[i] != '=' by {
        if i < pad.len() {
            assert(part[i] == pad[i]);
        } else if pad.len() + 6 <= i {
            assert(part[i] == mid[i - pad.len() - 6]);
        }
    }
    assert(part[n] == '=');
    lemma_find_from_is(part, '=', 0, n);
    assert(part.skip(n + 1) =~= value);
    lemma_trim_start_of(pad, word + mid + seq!['='] + value);
    assert(part =~= pad + (word + mid + seq!['='] + value));
    let core = word + mid + seq!['='] + value;
    assert(core.subrange(0, 6) =~= word);
    assert(seq![part][0] == part);
    assert((seq![part] + parts(rest, ';'))[0] == part);
}

proof fn lemma_trim_start_of(pad: Seq<char>, s: Seq<char>)
    requires
        is_blank(pad),
        s.len() > 0,
        'A' <= s[0] <= 'Z',
    ensures
        trim_start(pad + s) == s,
    decreases pad.len(),
{
    let all = pad + s;
    law_whitespace(s[0]);
    if pad.len() == 0 {
        assert(all =~= s);
    } else {
        assert(all[0] == pad[0]);
        assert(all.drop_first() =~= pad.drop_first() + s);
        assert forall|i: int| 0 <= i < pad.drop_first().len() implies
            is_whitespace(#[trigger] pad.drop_first()[i]) by {
            assert(pad.drop_first()[i] == pad[i + 1]);
        }
        lemma_trim_start_of(pad.drop_first(), s);
    }
}

/// A part that does not begin with `WIDGET` is passed over.
pub proof fn law_widget_behind(part: Seq<char>, rest: Seq<char>)
    requires
        forall|i: int| 0 <= i < part.len() ==> #[trigger] part[i] != ';',
        forall|t: Seq<char>| #![trigger "WIDGET"@ + t] trim_start(part) != "WIDGET"@ + t,
    ensures
        widget_name(part) is None,
        widget_name(part + seq![';'] + rest) == widget_name(rest),
{
    law_one_part(part, ';');
    law_first_part(part, ';', rest);
    let s = trim_start(part);
    if stands_at(s, "WIDGET"@, 0) {
        let n = "WIDGET"@.len() as int;
        assert(s =~= s.subrange(0, n) + s.skip(n));
        assert(s == "WIDGET"@ + s.skip(n));
    }
    let list = seq![part] + parts(rest, ';');
    assert(list[0] == part);
    assert(seq![part][0] == part);
    reveal_with_fuel(widget_part_from, 2);
    lemma_widget_part(parts(rest, ';'), part, 0);
}

proof fn lemma_widget_part(list: Seq<Seq<char>>, first: Seq<char>, i: int)
    requires
        0 <= i <= list.len(),
    ensures
        widget_part_from(seq![first] + list, i + 1) == widget_part_from(list, i),
    decreases list.len() - i,
{
    if i < list.len() {
        assert((seq![first] + list)[i + 1] == list[i]);
        lemma_widget_part(list, first, i + 1);
    }
}

// ---------------------------------------------------------------------------
// Devices
// ---------------------------------------------------------------------------

/// A code of four bytes is written as its bytes, highest first: a byte that can be seen
/// as its character, any other as a question mark. What stands above the four bytes does
/// not count.
pub proof fn law_four_cc(b0: u8, b1: u8, b2: u8, b3: u8, above: int)
    ensures
        ({
            let n = above * 0x1_0000_0000 + b0 * 0x100_0000 + b1 * 0x1_0000 + b2 * 0x100 + b3;
            let s = four_cc_text(n);
            &&& s.len() == 4
            &&& 0x21 <= b0 <= 0x7e ==> s[0] == b0 as char
            &&& 0x21 <= b1 <= 0x7e ==> s[1] == b1 as char
            &&& 0x21 <= b2 <= 0x7e ==> s[2] == b2 as char
            &&& 0x21 <= b3 <= 0x7e ==> s[3] == b3 as char
            &&& !(0x21 <= b0 <= 0x7e) ==> s[0] == '?'
            &&& !(0x21 <= b1 <= 0x7e) ==> s[1] == '?'
            &&& !(0x21 <= b2 <= 0x7e) ==> s[2] == '?'
            &&& !(0x21 <= b3 <= 0x7e) ==> s[3] == '?'
        }),
{
    let low = b0 * 0x100_0000 + b1 * 0x1_0000 + b2 * 0x100 + b3;
    let n = above * 0x1_0000_0000 + b0 * 0x100_0000 + b1 * 0x1_0000 + b2 * 0x100 + b3;
    lemma_code_bytes(b0 as int, b1 as int, b2 as int, b3 as int, low);
    assert(n % 0x1_0000_0000 == low) by {
        lemma_above(low, above);
    }
    let s = four_cc_text(n);
    assert(s[0] == code_char(b0 as int));
    assert(s[1] == code_char(b1 as int));
    assert(s[2] == code_char(b2 as int));
    assert(s[3] == code_char(b3 as int));
}

proof fn lemma_above(low: int, above: int)
    requires
        0 <= low < 0x1_0000_0000,
    ensures
        (above * 0x1_0000_0000 + low) % 0x1_0000_0000 == low,
{
}

proof fn lemma_code_bytes(b0: int, b1: int, b2: int, b3: int, low: int)
    requires
        0 <= b0 < 256,
        0 <= b1 < 256,
        0 <= b2 < 256,
        0 <= b3 < 256,
        low == b0 * 0x100_0000 + b1 * 0x1_0000 + b2 * 0x100 + b3,
    ensures
        0 <= low < 0x1_0000_0000,
        low / 0x100_0000 == b0,
        low / 0x1_0000 % 0x100 == b1,
        low / 0x100 % 0x100 == b2,
        low % 0x100 == b3,
{
    let h = b0 * 0x100 + b1;
    let m = h * 0x100 + b2;
    assert(low == h * 0x1_0000 + (b2 * 0x100 + b3));
    assert(low / 0x1_0000 == h);
    assert(h % 0x100 == b1);
    assert(low == m * 0x100 + b3);
    assert(low / 0x100 == m);
    assert(m % 0x100 == b2);
}

/// The preset names a widget: its text of Soundtoys' data does.
pub open spec fn widget_of(root: PlistModel) -> Option<Seq<char>> {
    match as_text(entry(root, "soundtoys-data"@)) {
        Some(s) => widget_name(s),
        None => None,
    }
}

/// A preset is a device where it has the three codes. The device has these codes, and
/// the preset itself as its state.
pub proof fn law_preset(root: PlistModel, bytes: Seq<u8>, pre: Seq<u8>)
    ensures
        aupreset_device(root, bytes, pre) is Some <==> as_integer(entry(root, "type"@)) is Some
            && as_integer(entry(root, "subtype"@)) is Some && as_integer(
            entry(root, "manufacturer"@),
        ) is Some,
        aupreset_device(root, bytes, pre) matches Some(d) ==> {
            &&& d.component_type == four_cc_text(as_integer(entry(root, "type"@))->Some_0)
            &&& d.component_subtype == four_cc_text(as_integer(entry(root, "subtype"@))->Some_0)
            &&& d.manufacturer == four_cc_text(as_integer(entry(root, "manufacturer"@))->Some_0)
            &&& d.state == bytes
            &&& !d.bypassed
        },
        match plist_document(bytes) {
            Ok(r) => preset_device(bytes, pre) == aupreset_device(r, bytes, pre),
            Err(_) => preset_device(bytes, pre) is None,
        },
{
}

/// A device without a widget has the name that stands before its preset: the last run of
/// printable bytes there that reads as a name.
pub proof fn law_device_named_before_preset(
    root: PlistModel,
    bytes: Seq<u8>,
    pre: Seq<u8>,
    i: int,
    j: int,
)
    requires
        widget_of(root) is None,
        is_run(pre, i, j),
        reads_as_name(run_text(pre, i, j)),
        no_name_from(pre, j + 1),
    ensures
        aupreset_device(root, bytes, pre) matches Some(d) ==> d.name == run_text(pre, i, j),
{
    law_plugin_name_is(pre, i, j);
    let n = run_text(pre, i, j);
    if n == "Untitled"@ {
        assert(n.subrange(0, n.len() as int) =~= n);
        assert(stands_at(n, "Untitled"@, 0));
    }
}

/// A device shows its subtype code only where it has no widget and nothing before its
/// preset reads as a name.
pub proof fn law_device_named_by_code(root: PlistModel, bytes: Seq<u8>, pre: Seq<u8>)
    requires
        widget_of(root) is None,
        no_name_from(pre, 0),
    ensures
        aupreset_device(root, bytes, pre) matches Some(d) ==> d.name == d.component_subtype,
{
    let at = law_plugin_name(pre);
    if plugin_name(pre) is Some {
        assert(is_run(pre, at.0, at.1));
    }
}

/// A device with a widget has the name of the widget, whatever stands before its preset.
/// An untitled one shows its subtype code.
pub proof fn law_device_named_by_widget(root: PlistModel, bytes: Seq<u8>, pre: Seq<u8>)
    requires
        widget_of(root) is Some,
    ensures
        aupreset_device(root, bytes, pre) matches Some(d) ==> {
            &&& widget_of(root)->Some_0 != "Untitled"@ && widget_of(root)->Some_0.len() > 0
                ==> d.name == widget_of(root)->Some_0
            &&& widget_of(root)->Some_0 == "Untitled"@ ==> d.name == d.component_subtype
        },
{
}

// ---------------------------------------------------------------------------
// Searching bytes
// ---------------------------------------------------------------------------

/// `p` stands at `i`, and at no earlier place from `from` on.
pub open spec fn is_first_at(s: Seq<u8>, p: Seq<u8>, from: int, i: int) -> bool {
    &&& from <= i
    &&& stands_at(s, p, i)
    &&& forall|j: int| from <= j < i ==> !#[trigger] stands_at(s, p, j)
}

/// `p` stands nowhere from `from` on.
pub open spec fn is_absent(s: Seq<u8>, p: Seq<u8>, from: int) -> bool {
    forall|j: int| from <= j ==> !#[trigger] stands_at(s, p, j)
}

/// Bytes are found at the first place where they stand, and not found only where they
/// stand nowhere.
pub proof fn law_find_bytes(s: Seq<u8>, p: Seq<u8>, from: int)
    requires
        0 <= from,
        p.len() > 0,
    ensures
        match find_bytes_from(s, p, from) {
            Some(i) => is_first_at(s, p, from, i),
            None => is_absent(s, p, from),
        },
    decreases s.len() - from,
{
    if from + p.len() <= s.len() && !stands_at(s, p, from) {
        law_find_bytes(s, p, from + 1);
    }
}

proof fn lemma_found(s: Seq<u8>, p: Seq<u8>, from: int, i: int)
    requires
        0 <= from,
        p.len() > 0,
    ensures
        is_first_at(s, p, from, i) ==> find_bytes_from(s, p, from) == Some(i),
        is_absent(s, p, from) ==> find_bytes_from(s, p, from) is None,
{
    law_find_bytes(s, p, from);
    if is_first_at(s, p, from, i) {
        assert(stands_at(s, p, i));
        if find_bytes_from(s, p, from) is Some {
            let k = find_bytes_from(s, p, from)->Some_0;
            assert(stands_at(s, p, k));
        }
    }
    if is_absent(s, p, from) && find_bytes_from(s, p, from) is Some {
        assert(stands_at(s, p, find_bytes_from(s, p, from)->Some_0));
    }
}

/// The tag of a plugin slot.
pub open spec fn slot_tag() -> Seq<u8> {
    seq![0x55u8, 0x43u8, 0x75u8, 0x41u8]
}

/// The tag of a built-in effect.
pub open spec fn builtin_tag() -> Seq<u8> {
    seq![0x47u8, 0x41u8, 0x4du8, 0x45u8]
}

/// The beginning of a binary property list.
pub open spec fn binary_tag() -> Seq<u8> {
    seq![0x62u8, 0x70u8, 0x6cu8, 0x69u8, 0x73u8, 0x74u8, 0x30u8, 0x30u8]
}

/// The beginning of an XML document.
pub open spec fn xml_tag() -> Seq<u8> {
    seq![0x3cu8, 0x3fu8, 0x78u8, 0x6du8, 0x6cu8]
}

/// The end of a property list in XML.
pub open spec fn plist_end() -> Seq<u8> {
    seq![0x3cu8, 0x2fu8, 0x70u8, 0x6cu8, 0x69u8, 0x73u8, 0x74u8, 0x3eu8]
}

/// The tag of a track.
pub open spec fn track_tag() -> Seq<u8> {
    seq![0x6bu8, 0x61u8, 0x72u8, 0x54u8]
}

/// The tag of a sequence, which holds the name of its track.
pub open spec fn sequence_tag() -> Seq<u8> {
    seq![0x71u8, 0x65u8, 0x53u8, 0x4du8]
}

proof fn lemma_tags()
    ensures
        UCUA@ == slot_tag(),
        GAME@ == builtin_tag(),
        BPLIST@ == binary_tag(),
        XML@ == xml_tag(),
        PLIST_END@ == plist_end(),
        TRAK@ == track_tag(),
        QESM@ == sequence_tag(),
{
    assert(UCUA@ =~= slot_tag());
    assert(GAME@ =~= builtin_tag());
    assert(BPLIST@ =~= binary_tag());
    assert(XML@ =~= xml_tag());
    assert(PLIST_END@ =~= plist_end());
    assert(TRAK@ =~= track_tag());
    assert(QESM@ =~= sequence_tag());
}

// ---------------------------------------------------------------------------
// Slots
// ---------------------------------------------------------------------------

/// The bytes from the slot at `p` on that are looked at: fifty kilobytes at most.
pub open spec fn is_window(data: Seq<u8>, p: int, w: Seq<u8>) -> bool {
    &&& 0 <= p <= data.len()
    &&& w.len() == (if p + 51_200 <= data.len() {
        51_200
    } else {
        data.len() - p
    })
    &&& forall|k: int| 0 <= k < w.len() ==> #[trigger] w[k] == data[p + k]
}

/// Nothing of `p` stands before the place `i`.
pub open spec fn none_before(s: Seq<u8>, p: Seq<u8>, i: int) -> bool {
    forall|j: int| 0 <= j < i ==> !#[trigger] stands_at(s, p, j)
}

proof fn lemma_window(data: Seq<u8>, p: int, w: Seq<u8>)
    requires
        is_window(data, p, w),
    ensures
        w == slot_window(data, p),
{
    assert(w =~= slot_window(data, p));
}

/// A slot in which the tag of a built-in effect stands first is that effect. Its name is
/// the readable one between the two tags, or `Logic built-in`. The slots behind follow.
pub proof fn law_builtin_slot(data: Seq<u8>, from: int, p: int, w: Seq<u8>, g: int)
    requires
        0 <= from <= data.len(),
        is_first_at(data, slot_tag(), from, p),
        is_window(data, p, w),
        is_first_at(w, builtin_tag(), 0, g),
        none_before(w, binary_tag(), g),
        none_before(w, xml_tag(), g),
    ensures
        ({
            let slots = slots_from(data, from);
            let between = data.subrange(p + 4, p + g);
            &&& slots.len() > 0
            &&& slots[0].pos == p
            &&& match plugin_name(between) {
                Some(n) => slots[0].kind == KindModel::BuiltIn(n),
                None => slots[0].kind == KindModel::BuiltIn("Logic built-in"@),
            }
            &&& slots.skip(1) == slots_from(data, p + 4)
        }),
{
    lemma_tags();
    lemma_window(data, p, w);
    lemma_found(data, slot_tag(), from, p);
    lemma_found(w, builtin_tag(), 0, g);
    law_find_bytes(w, binary_tag(), 0);
    law_find_bytes(w, xml_tag(), 0);
    if find_bytes(w, binary_tag()) is Some {
        let b = find_bytes(w, binary_tag())->Some_0;
        assert(stands_at(w, binary_tag(), b));
    }
    if find_bytes(w, xml_tag()) is Some {
        let x = find_bytes(w, xml_tag())->Some_0;
        assert(stands_at(w, xml_tag(), x));
    }
    let slots = slots_from(data, from);
    assert(slots.skip(1) =~= slots_from(data, p + 4));
}

/// A slot in which an XML document stands first is the plugin of the preset up to the end
/// of that document, where the preset is one of a plugin. The slots behind the document
/// follow.
pub proof fn law_plugin_slot(data: Seq<u8>, from: int, p: int, w: Seq<u8>, x: int, e: int)
    requires
        0 <= from <= data.len(),
        is_first_at(data, slot_tag(), from, p),
        is_window(data, p, w),
        is_first_at(w, xml_tag(), 0, x),
        none_before(w, binary_tag(), x + 1),
        none_before(w, builtin_tag(), x + 1),
        is_first_at(data, plist_end(), p + x, e),
    ensures
        ({
            let slots = slots_from(data, from);
            let behind = slots_from(data, e + 8);
            let preset = data.subrange(p + x, e + 8);
            let before = data.subrange(p, p + x);
            match preset_device(preset, before) {
                Some(d) => {
                    &&& slots.len() > 0
                    &&& slots[0].pos == p
                    &&& slots[0].kind == KindModel::ThirdParty(d)
                    &&& slots.skip(1) == behind
                },
                None => slots == behind,
            }
        }),
{
    lemma_tags();
    lemma_window(data, p, w);
    lemma_found(data, slot_tag(), from, p);
    lemma_found(w, xml_tag(), 0, x);
    lemma_found(data, plist_end(), p + x, e);
    law_find_bytes(w, binary_tag(), 0);
    law_find_bytes(w, builtin_tag(), 0);
    if find_bytes(w, binary_tag()) is Some {
        let b = find_bytes(w, binary_tag())->Some_0;
        assert(stands_at(w, binary_tag(), b));
    }
    if find_bytes(w, builtin_tag()) is Some {
        let g = find_bytes(w, builtin_tag())->Some_0;
        assert(stands_at(w, builtin_tag(), g));
    }
    assert(first_signal(slot_window(data, p)) == SignalModel::Preset(x));
    let slots = slots_from(data, from);
    let behind = slots_from(data, e + 8);
    if preset_device(data.subrange(p + x, e + 8), data.subrange(p, p + x)) is Some {
        assert(slots.skip(1) =~= behind);
    }
}

/// A slot in which a binary property list stands first, or none of the three, is passed
/// over.
pub proof fn law_passed_slot(data: Seq<u8>, from: int, p: int, w: Seq<u8>, b: int)
    requires
        0 <= from <= data.len(),
        is_first_at(data, slot_tag(), from, p),
        is_window(data, p, w),
        ({
            ||| is_absent(w, builtin_tag(), 0) && is_absent(w, xml_tag(), 0)
            ||| is_first_at(w, binary_tag(), 0, b) && none_before(w, builtin_tag(), b + 1)
                && none_before(w, xml_tag(), b + 1)
        }),
    ensures
        slots_from(data, from) == slots_from(data, p + 4),
{
    lemma_tags();
    lemma_window(data, p, w);
    lemma_found(data, slot_tag(), from, p);
    law_find_bytes(w, xml_tag(), 0);
    law_find_bytes(w, builtin_tag(), 0);
    lemma_found(w, binary_tag(), 0, b);
    if find_bytes(w, xml_tag()) is Some {
        let x = find_bytes(w, xml_tag())->Some_0;
        assert(stands_at(w, xml_tag(), x));
    }
    if find_bytes(w, builtin_tag()) is Some {
        let g = find_bytes(w, builtin_tag())->Some_0;
        assert(stands_at(w, builtin_tag(), g));
    }
    assert(first_signal(slot_window(data, p)) == SignalModel::Neither);
}

/// Without the tag of a slot there is none.
pub proof fn law_no_slot(data: Seq<u8>, from: int)
    requires
        0 <= from <= data.len(),
        is_absent(data, slot_tag(), from),
    ensures
        slots_from(data, from).len() == 0,
{
    lemma_tags();
    lemma_found(data, slot_tag(), from, 0);
}

// ---------------------------------------------------------------------------
// Tracks
// ---------------------------------------------------------------------------

/// A name is written at `i`: its length in two bytes, low byte first, from two to
/// sixty-three printable characters, and a zero.
pub open spec fn is_name_at(data: Seq<u8>, i: int, name: Seq<char>) -> bool {
    let n = name.len() as int;
    &&& 2 <= n <= 63
    &&& data[i] == n
    &&& data[i + 1] == 0
    &&& i + 2 + n < data.len()
    &&& data[i + 2 + n] == 0
    &&& forall|k: int|
        0 <= k < n ==> is_seen(data[i + 2 + k]) && #[trigger] name[k] == data[i + 2 + k] as char
}

/// A name is read where it is written.
pub proof fn law_name_at(data: Seq<u8>, i: int, name: Seq<char>)
    requires
        0 <= i,
        i + 3 < data.len(),
    ensures
        is_name_at(data, i, name) ==> name_at(data, i) == Some(name),
        name_at(data, i) == Some(name) ==> is_name_at(data, i, name),
{
    let len = data[i] + 256 * data[i + 1];
    let end = i + 2 + len;
    if is_name_at(data, i, name) {
        assert forall|k: int| i + 2 <= k < end implies is_printable(
            #[trigger] data[k],
        ) by {
            assert(name[k - i - 2] == data[k] as char);
            assert(is_seen(data[i + 2 + (k - i - 2)]));
        }
        assert(latin_chars(data.subrange(i + 2, end)) =~= name);
    }
    if name_at(data, i) == Some(name) {
        assert(data[i + 1] == 0);
        assert forall|k: int| 0 <= k < name.len() implies is_seen(data[i + 2 + k])
            && #[trigger] name[k] == data[i + 2 + k] as char by {
            assert(is_printable(data[i + 2 + k]));
        }
    }
}

proof fn lemma_name_from(data: Seq<u8>, i: int, hi: int) -> (k: int)
    ensures
        match name_from(data, i, hi) {
            Some(n) => i <= k < hi && name_at(data, k) == Some(n) && forall|j: int|
                i <= j < k ==> #[trigger] name_at(data, j) is None,
            None => forall|j: int| i <= j < hi ==> #[trigger] name_at(data, j) is None,
        },
    decreases hi - i,
{
    if i < hi && name_at(data, i) is None {
        lemma_name_from(data, i + 1, hi)
    } else {
        i
    }
}

/// The name of a sequence is the first that is written from 48 to before 128 bytes behind
/// its tag.
pub proof fn law_sequence_name(data: Seq<u8>, start: int) -> (k: int)
    ensures
        match qesm_name(data, start) {
            Some(n) => start + 48 <= k < start + 128 && k < data.len() - 3 && name_at(data, k)
                == Some(n) && forall|j: int|
                start + 48 <= j < k ==> #[trigger] name_at(data, j) is None,
            None => forall|j: int|
                start + 48 <= j < start + 128 && j < data.len() - 3 ==> #[trigger] name_at(data, j)
                    is None,
        },
{
    lemma_name_from(data, start + 48, lesser(start + 128, data.len() - 3))
}

/// A track stands where its tag does and a sequence with a name stands within 512 bytes;
/// what comes next is looked for fifty bytes behind the tag. Anywhere else it is looked
/// for at the next byte.
pub proof fn law_track_chunk(data: Seq<u8>, pos: int, w: Seq<u8>, rel: int)
    requires
        0 <= pos,
        pos + 4 <= data.len(),
        w == data.subrange(
            pos,
            if pos + 512 <= data.len() {
                pos + 512
            } else {
                data.len() as int
            },
        ),
    ensures
        !stands_at(data, track_tag(), pos) ==> traks_from(data, pos) == traks_from(data, pos + 1),
        stands_at(data, track_tag(), pos) && is_absent(w, sequence_tag(), 0) ==> traks_from(
            data,
            pos,
        ) == traks_from(data, pos + 50),
        stands_at(data, track_tag(), pos) && is_first_at(w, sequence_tag(), 0, rel) ==> match qesm_name(
            data,
            pos + rel,
        ) {
            Some(name) => {
                let list = traks_from(data, pos);
                &&& list.len() > 0
                &&& list[0].pos == pos
                &&& list[0].name == name
                &&& list.skip(1) == traks_from(data, pos + 50)
            },
            None => traks_from(data, pos) == traks_from(data, pos + 50),
        },
{
    lemma_tags();
    lemma_found(w, sequence_tag(), 0, rel);
    let list = traks_from(data, pos);
    if stands_at(data, track_tag(), pos) && trak_name(data, pos) is Some {
        assert(list.skip(1) =~= traks_from(data, pos + 50));
    }
}

/// Behind the last four bytes there is no track.
pub proof fn law_no_track_chunk(data: Seq<u8>, pos: int)
    requires
        pos + 4 > data.len(),
    ensures
        traks_from(data, pos).len() == 0,
{
}

// ---------------------------------------------------------------------------
// Plugins of tracks
// ---------------------------------------------------------------------------

/// A plugin at `pos` belongs to the track with the given index: the track begins before
/// the plugin, and the next track does not.
pub open spec fn belongs(tracks: Seq<TrakModel>, i: int, pos: int) -> bool {
    &&& 0 <= i < tracks.len()
    &&& tracks[i].pos < pos
    &&& i + 1 < tracks.len() ==> tracks[i + 1].pos >= pos
}

/// A plugin belongs to no track: all of them begin at it or behind.
pub open spec fn belongs_to_none(tracks: Seq<TrakModel>, pos: int) -> bool {
    forall|i: int| 0 <= i < tracks.len() ==> (#[trigger] tracks[i]).pos >= pos
}

proof fn lemma_owner(traks: Seq<TrakModel>, i: int, pos: int)
    requires
        0 <= i < traks.len(),
    ensures
        owner(sorted_traks(traks), pos) == i + 1 <==> belongs(sorted_traks(traks), i, pos),
        owner(sorted_traks(traks), pos) == 0 <==> belongs_to_none(sorted_traks(traks), pos),
{
    let sorted = sorted_traks(traks);
    law_sorted_traks(traks);
    law_nearest_track(traks, pos);
    let k = owner(sorted, pos);
    if belongs(sorted, i, pos) {
        if k <= i {
            assert(sorted[i].pos >= pos);
        }
        if k > i + 1 {
            assert(sorted[i + 1].pos <= sorted[k - 1].pos);
        }
    }
    if k == i + 1 && i + 1 < sorted.len() {
        assert(sorted[i + 1].pos >= pos);
    }
    if k > 0 {
        assert(sorted[k - 1].pos < pos);
    }
}

proof fn lemma_devices_of(
    traks: Seq<TrakModel>,
    slots: Seq<SlotModel>,
    number: int,
    n: int,
)
    requires
        0 <= n <= slots.len(),
    ensures
        ({
            let at = chosen(n, |j: int| owner(sorted_traks(traks), slots[j].pos) == number);
            let found = devices_of(sorted_traks(traks), slots.take(n), number);
            &&& found.len() == at.len()
            &&& forall|k: int| 0 <= k < at.len() ==> #[trigger] found[k] == slots[at[k]].device()
        }),
    decreases n,
{
    let sorted = sorted_traks(traks);
    let keep = |j: int| owner(sorted, slots[j].pos) == number;
    if n > 0 {
        lemma_devices_of(traks, slots, number, n - 1);
        let part = slots.take(n);
        assert(part.drop_last() =~= slots.take(n - 1));
        assert(part.last() == slots[n - 1]);
        assert(keep(n - 1) == (owner(sorted, slots[n - 1].pos) == number));
    }
}

/// The devices of a track are those of the slots that belong to it, in order.
pub proof fn law_devices_of_track(traks: Seq<TrakModel>, slots: Seq<SlotModel>, i: int) -> (at: Seq<
    int,
>)
    requires
        0 <= i < traks.len(),
    ensures
        is_selection(
            at,
            slots.len() as int,
            |j: int| belongs(sorted_traks(traks), i, slots[j].pos),
        ),
        devices_of(sorted_traks(traks), slots, i + 1).len() == at.len(),
        forall|k: int|
            0 <= k < at.len() ==> #[trigger] devices_of(sorted_traks(traks), slots, i + 1)[k]
                == slots[at[k]].device(),
{
    let n = slots.len() as int;
    let sorted = sorted_traks(traks);
    let keep = |j: int| owner(sorted, slots[j].pos) == i + 1;
    let wanted = |j: int| belongs(sorted, i, slots[j].pos);
    assert forall|j: int| #[trigger] keep(j) == wanted(j) by {
        lemma_owner(traks, i, slots[j].pos);
    }
    assert(keep =~= wanted);
    lemma_chosen(n, keep);
    lemma_devices_of(traks, slots, i + 1, n);
    assert(slots.take(n) =~= slots);
    chosen(n, keep)
}

/// The plugins before the first track are given apart, in order.
pub proof fn law_loose_devices(traks: Seq<TrakModel>, slots: Seq<SlotModel>) -> (at: Seq<int>)
    ensures
        is_selection(
            at,
            slots.len() as int,
            |j: int| belongs_to_none(sorted_traks(traks), slots[j].pos),
        ),
        unassociated_devices(traks, slots).len() == at.len(),
        forall|k: int|
            0 <= k < at.len() ==> #[trigger] unassociated_devices(traks, slots)[k]
                == slots[at[k]].device(),
{
    let n = slots.len() as int;
    let sorted = sorted_traks(traks);
    let keep = |j: int| owner(sorted, slots[j].pos) == 0;
    let wanted = |j: int| belongs_to_none(sorted, slots[j].pos);
    assert forall|j: int| #[trigger] keep(j) == wanted(j) by {
        if traks.len() > 0 {
            lemma_owner(traks, 0, slots[j].pos);
        } else {
            law_sorted_traks(traks);
        }
    }
    assert(keep =~= wanted);
    lemma_chosen(n, keep);
    lemma_devices_of(traks, slots, 0, n);
    assert(slots.take(n) =~= slots);
    chosen(n, keep)
}

proof fn lemma_tracks_with_devices(traks: Seq<TrakModel>, slots: Seq<SlotModel>, n: int)
    requires
        0 <= n <= traks.len(),
    ensures
        ({
            let sorted = sorted_traks(traks);
            let at = chosen(n, |i: int| devices_of(sorted, slots, i + 1).len() > 0);
            let found = tracks_with_devices(sorted, slots, n);
            &&& found.len() == at.len()
            &&& forall|k: int|
                0 <= k < at.len() ==> (#[trigger] found[k]).name == sorted[at[k]].name
                    && found[k].kind == TrackKind::Unknown && found[k].devices == devices_of(
                    sorted,
                    slots,
                    at[k] + 1,
                )
        }),
    decreases n,
{
    let sorted = sorted_traks(traks);
    let keep = |i: int| devices_of(sorted, slots, i + 1).len() > 0;
    if n > 0 {
        lemma_tracks_with_devices(traks, slots, n - 1);
        assert(keep(n - 1) == (devices_of(sorted, slots, n).len() > 0));
    }
}

/// The tracks of a project are those that a plugin belongs to, in the order of their
/// places, each with its name and its plugins.
pub proof fn law_tracks_with_plugins(traks: Seq<TrakModel>, slots: Seq<SlotModel>) -> (at: Seq<int>)
    ensures
        ({
            let sorted = sorted_traks(traks);
            let tracks = associated_tracks(traks, slots);
            &&& is_selection(
                at,
                traks.len() as int,
                |i: int|
                    exists|j: int|
                        0 <= j < slots.len() && belongs(sorted, i, (#[trigger] slots[j]).pos),
            )
            &&& tracks.len() == at.len()
            &&& forall|k: int|
                0 <= k < at.len() ==> (#[trigger] tracks[k]).name == sorted[at[k]].name
                    && tracks[k].kind == TrackKind::Unknown && tracks[k].devices == devices_of(
                    sorted,
                    slots,
                    at[k] + 1,
                )
        }),
{
    law_sorted_traks(traks);
    let sorted = sorted_traks(traks);
    let n = traks.len() as int;
    let keep = |i: int| devices_of(sorted, slots, i + 1).len() > 0;
    let wanted = |i: int|
        exists|j: int| 0 <= j < slots.len() && belongs(sorted, i, (#[trigger] slots[j]).pos);
    lemma_tracks_with_devices(traks, slots, n);
    lemma_chosen(n, keep);
    let at = chosen(n, keep);
    assert forall|i: int| 0 <= i < n implies #[trigger] keep(i) == wanted(i) by {
        let has = law_devices_of_track(traks, slots, i);
        let own = |j: int| belongs(sorted, i, slots[j].pos);
        if keep(i) {
            assert(own(has[0]));
            assert(belongs(sorted, i, slots[has[0]].pos));
        }
        if wanted(i) {
            let j = choose|j: int|
                0 <= j < slots.len() && belongs(sorted, i, (#[trigger] slots[j]).pos);
            assert(own(j));
            assert(has.contains(j));
        }
    }
    assert forall|i: int| 0 <= i < n && #[trigger] wanted(i) implies at.contains(i) by {
        assert(keep(i));
    }
    assert forall|k: int| 0 <= k < at.len() implies 0 <= #[trigger] at[k] < n && wanted(at[k]) by {
        assert(keep(at[k]));
    }
    at
}

/// The plugin of a slot is the device that was read, or a built-in effect of Logic under
/// its name.
pub proof fn law_slot_device(slot: SlotModel)
    ensures
        slot.kind matches KindModel::ThirdParty(d) ==> slot.device() == d,
        slot.kind matches KindModel::BuiltIn(name) ==> slot.device().name == name
            && slot.device().manufacturer == "Logic"@ && slot.device().component_type.len() == 0
            && slot.device().component_subtype.len() == 0 && !slot.device().bypassed
            && slot.device().state.len() == 0,
{
}

// ---------------------------------------------------------------------------
// Property lists
// ---------------------------------------------------------------------------

proof fn lemma_entry_from(
    entries: Seq<(Seq<char>, PlistModel)>,
    key: Seq<char>,
    i: int,
) -> (k: int)
    requires
        0 <= i <= entries.len(),
    ensures
        match entry_from(entries, key, i) {
            Some(v) => i <= k < entries.len() && entries[k] == (key, v) && forall|j: int|
                i <= j < k ==> (#[trigger] entries[j]).0 != key,
            None => forall|j: int| i <= j < entries.len() ==> (#[trigger] entries[j]).0 != key,
        },
    decreases entries.len() - i,
{
    if i < entries.len() && entries[i].0 != key {
        lemma_entry_from(entries, key, i + 1)
    } else {
        i
    }
}

/// The entry of a dictionary is the first with the key. Nothing but a dictionary has one.
pub proof fn law_entry(n: PlistModel, key: Seq<char>) -> (k: int)
    ensures
        match entry(n, key) {
            Some(v) => n.item is Dictionary && 0 <= k < n.children.len() && n.children[k] == (
                key,
                v,
            ) && forall|j: int| 0 <= j < k ==> (#[trigger] n.children[j]).0 != key,
            None => n.item is Dictionary ==> forall|j: int|
                0 <= j < n.children.len() ==> (#[trigger] n.children[j]).0 != key,
        },
{
    lemma_entry_from(n.children, key, 0)
}

/// A value is a text, a number, a truth value or bytes where it is of that kind, and an
/// array has its elements in order.
pub proof fn law_value(v: PlistModel)
    ensures
        v.item matches ItemModel::Text(s) ==> as_text(Some(v)) == Some(s),
        !(v.item is Text) ==> as_text(Some(v)) is None,
        v.item matches ItemModel::Integer(x) ==> as_integer(Some(v)) == Some(x),
        !(v.item is Integer) ==> as_integer(Some(v)) is None,
        v.item matches ItemModel::Boolean(b) ==> as_boolean(Some(v)) == Some(b),
        !(v.item is Boolean) ==> as_boolean(Some(v)) is None,
        v.item matches ItemModel::Data(d) ==> as_data(Some(v)) == Some(d),
        !(v.item is Data) ==> as_data(Some(v)) is None,
        v.item is Array ==> elements(Some(v)).len() == v.children.len() && forall|i: int|
            0 <= i < v.children.len() ==> #[trigger] elements(Some(v))[i] == v.children[i].1,
        !(v.item is Array) ==> elements(Some(v)).len() == 0,
        as_text(None) is None && as_integer(None) is None && as_boolean(None) is None && as_data(
            None,
        ) is None && elements(None).len() == 0,
{
}

/// A dictionary of an older project is a plugin where it has a name that is not empty.
/// Its codes are read as numbers or as texts, its state from the first of two keys that is
/// there, and it is bypassed only where it says so.
pub proof fn law_legacy_device(n: PlistModel)
    ensures
        legacy_device(n) is Some <==> as_text(entry(n, "name"@)) is Some && as_text(
            entry(n, "name"@),
        )->Some_0.len() > 0,
        legacy_device(n) matches Some(d) ==> {
            let kind = entry(n, "componentType"@);
            let subtype = entry(n, "componentSubType"@);
            let preset = entry(n, "presetData"@);
            let state = entry(n, "pluginState"@);
            &&& as_text(entry(n, "name"@)) == Some(d.name)
            &&& as_text(entry(n, "manufacturer"@)) matches Some(m) ==> d.manufacturer == m
            &&& as_text(entry(n, "manufacturer"@)) is None ==> d.manufacturer.len() == 0
            &&& as_integer(kind) matches Some(x) ==> d.component_type == four_cc_text(x)
            &&& as_text(kind) matches Some(s) ==> d.component_type == s
            &&& as_integer(kind) is None && as_text(kind) is None ==> d.component_type.len() == 0
            &&& as_integer(subtype) matches Some(x) ==> d.component_subtype == four_cc_text(x)
            &&& as_text(subtype) matches Some(s) ==> d.component_subtype == s
            &&& as_integer(subtype) is None && as_text(subtype) is None
                ==> d.component_subtype.len() == 0
            &&& d.bypassed <==> as_boolean(entry(n, "bypassState"@)) == Some(true)
            &&& as_data(preset) matches Some(b) ==> d.state == b
            &&& preset is None && as_data(state) is Some ==> d.state == as_data(state)->Some_0
            &&& preset is None && as_data(state) is None ==> d.state.len() == 0
            &&& preset is Some && as_data(preset) is None ==> d.state.len() == 0
        },
{
}

proof fn lemma_legacy_devices(list: Seq<PlistModel>, n: int)
    requires
        0 <= n <= list.len(),
    ensures
        ({
            let at = chosen(n, |i: int| is_named(list[i]));
            let found = legacy_devices(list.take(n));
            &&& found.len() == at.len()
            &&& forall|k: int|
                0 <= k < at.len() ==> Some(#[trigger] found[k]) == legacy_device(list[at[k]])
        }),
    decreases n,
{
    let keep = |i: int| is_named(list[i]);
    if n > 0 {
        lemma_legacy_devices(list, n - 1);
        let part = list.take(n);
        assert(part.drop_last() =~= list.take(n - 1));
        assert(part.last() == list[n - 1]);
        assert(keep(n - 1) == is_named(list[n - 1]));
        law_legacy_device(list[n - 1]);
    }
}

/// The value has a name that is not empty.
pub open spec fn is_named(n: PlistModel) -> bool {
    as_text(entry(n, "name"@)) is Some && as_text(entry(n, "name"@))->Some_0.len() > 0
}

/// A track of an older project has the name of its dictionary, the kind that its number
/// names, and the plugins of its list that have a name, in order.
pub proof fn law_legacy_track(n: PlistModel) -> (at: Seq<int>)
    ensures
        legacy_track(n) is Some <==> as_text(entry(n, "name"@)) is Some,
        legacy_track(n) matches Some(t) ==> {
            let kind = as_integer(entry(n, "trackType"@));
            let list = elements(entry(n, "plugins"@));
            &&& as_text(entry(n, "name"@)) == Some(t.name)
            &&& kind == Some(0int) <==> t.kind == TrackKind::Audio
            &&& kind == Some(1int) <==> t.kind == TrackKind::SoftwareInstrument
            &&& kind == Some(2int) <==> t.kind == TrackKind::Aux
            &&& kind == Some(3int) <==> t.kind == TrackKind::Master
            &&& is_selection(at, list.len() as int, |i: int| is_named(list[i]))
            &&& t.devices.len() == at.len()
            &&& forall|k: int|
                0 <= k < at.len() ==> Some(#[trigger] t.devices[k]) == legacy_device(list[at[k]])
        },
{
    let list = elements(entry(n, "plugins"@));
    let m = list.len() as int;
    let keep = |i: int| is_named(list[i]);
    lemma_chosen(m, keep);
    lemma_legacy_devices(list, m);
    assert(list.take(m) =~= list);
    chosen(m, keep)
}

proof fn lemma_legacy_tracks(list: Seq<PlistModel>, n: int)
    requires
        0 <= n <= list.len(),
    ensures
        ({
            let at = chosen(n, |i: int| as_text(entry(list[i], "name"@)) is Some);
            let found = legacy_tracks(list.take(n));
            &&& found.len() == at.len()
            &&& forall|k: int|
                0 <= k < at.len() ==> Some(#[trigger] found[k]) == legacy_track(list[at[k]])
        }),
    decreases n,
{
    let keep = |i: int| as_text(entry(list[i], "name"@)) is Some;
    if n > 0 {
        lemma_legacy_tracks(list, n - 1);
        let part = list.take(n);
        assert(part.drop_last() =~= list.take(n - 1));
        assert(part.last() == list[n - 1]);
        assert(keep(n - 1) == (as_text(entry(list[n - 1], "name"@)) is Some));
    }
}

/// The beginning of a project in Logic's own format.
pub open spec fn magic() -> Seq<u8> {
    seq![0x23u8, 0x47u8, 0xc0u8, 0xabu8]
}

/// Data in Logic's own format is searched for tracks and slots. Any other is a property
/// list, whose tracks are those of its list with a name, in order.
pub proof fn law_project_content(data: Seq<u8>) -> (at: Seq<int>)
    ensures
        stands_at(data, magic(), 0) ==> (project_content(data) matches Ok(c) && c.0
            == associated_tracks(
            traks_from(data, 0),
            slots_from(data, 0),
        ) && c.1 == unassociated_devices(
            traks_from(data, 0),
            slots_from(data, 0),
        )),
        !stands_at(data, magic(), 0) ==> match plist_document(data) {
            Ok(root) => {
                let list = elements(entry(root, "tracks"@));
                &&& is_selection(
                    at,
                    list.len() as int,
                    |i: int| as_text(entry(list[i], "name"@)) is Some,
                )
                &&& project_content(data) matches Ok(c) && c.0.len() == at.len() && c.1.len() == 0
                    && forall|k: int|
                    0 <= k < at.len() ==> Some(#[trigger] c.0[k]) == legacy_track(list[at[k]])
            },
            Err(e) => project_content(data) is Err,
        },
{
    assert(LOGIC_MAGIC@ =~= magic());
    match plist_document(data) {
        Ok(root) => {
            let list = elements(entry(root, "tracks"@));
            let m = list.len() as int;
            let keep = |i: int| as_text(entry(list[i], "name"@)) is Some;
            lemma_chosen(m, keep);
            lemma_legacy_tracks(list, m);
            assert(list.take(m) =~= list);
            chosen(m, keep)
        },
        Err(_) => Seq::empty(),
    }
}

/// A package is read from the first of its three data files that is there. Its name is
/// that of the project's information, where that gives one that is no placeholder, else
/// that of the package.
pub proof fn law_package(p: LogicPackage)
    ensures
        !p.is_dir ==> package_project(p) is Err,
        p.is_dir && p.modern is Missing && p.legacy_lower is Missing && p.legacy_upper is Missing
            ==> package_project(p) is Err,
        p.is_dir ==> {
            &&& p.modern matches PackageFile::Data(d) ==> is_read_from(p, d@)
            &&& p.modern is Missing ==> (p.legacy_lower matches PackageFile::Data(d)
                ==> is_read_from(p, d@))
            &&& p.modern is Missing && p.legacy_lower is Missing ==> (
            p.legacy_upper matches PackageFile::Data(d) ==> is_read_from(p, d@))
            &&& p.modern is Unreadable ==> package_project(p) is Err
        },
{
}

/// The project of the package is what its data holds, under its name.
pub open spec fn is_read_from(p: LogicPackage, data: Seq<u8>) -> bool {
    match (project_content(data), package_project(p)) {
        (Ok(c), Ok(project)) => {
            &&& project.tracks == c.0
            &&& project.all_devices == c.1
            &&& match p.information {
                Some(b) => match plist_document(b@) {
                    Ok(root) => {
                        &&& match as_text(entry(root, "LastSavedFrom"@)) {
                            Some(v) => project.logic_version == v,
                            None => project.logic_version.len() == 0,
                        }
                        &&& match entry(root, "VariantNames"@) {
                            Some(names) => match as_text(entry(names, "0"@)) {
                                Some(s) => if s.len() > 0 && !s.contains('{') {
                                    project.name == s
                                } else {
                                    has_own_name(p, project.name)
                                },
                                None => has_own_name(p, project.name),
                            },
                            None => has_own_name(p, project.name),
                        }
                    },
                    Err(_) => project.logic_version.len() == 0 && has_own_name(p, project.name),
                },
                None => project.logic_version.len() == 0 && has_own_name(p, project.name),
            }
        },
        (Err(_), Err(_)) => true,
        _ => false,
    }
}

/// The name is that of the package, or `Untitled` where the package has none.
pub open spec fn has_own_name(p: LogicPackage, name: Seq<char>) -> bool {
    match p.stem {
        Some(s) => name == s@,
        None => name == "Untitled"@,
    }
}

/// An error says what failed, and then why.
pub proof fn law_error_text(e: LogicError)
    ensures
        e matches LogicError::NotAPackage(p) ==> e.text()
            == "path is not a .logicx package directory: "@ + p@,
        e matches LogicError::ProjectDataNotFound(p) ==> e.text()
            == "project data not found; expected at "@ + p@,
        e matches LogicError::Io(t) ==> e.text() == "I/O error: "@ + t@,
        e matches LogicError::Plist(t) ==> e.text() == "plist parse error: "@ + t@,
{
}

} // verus!
