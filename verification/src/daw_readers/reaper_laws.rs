//! What holds of every Reaper project that is read.
use vstd::prelude::*;

use crate::daw_readers::reaper::{
    attribute_from, block_from, format_and_rest, fx_chain_of, fx_of, lemma_body_next,
    name_and_vendor, project_from, project_of, quoted, read_body, state_text, tokens, track_of,
    tracks_of, uid_parts, NodeModel, PluginFormat, ReaperError,
};
use crate::selection::{chosen, is_selection, lemma_chosen};
use crate::text::{
    concat, eq_ignore_case, lemma_find_from_is, lines, rfind,
    stands_at, strip_prefix, trim, upper,
};
use crate::text_laws::{
    is_blank, is_bounded, law_rfind, law_strip_prefix, law_trim, law_trim_end_char,
};

verus! {

// ---------------------------------------------------------------------------
// Chains
// ---------------------------------------------------------------------------

/// The tag, in capitals, is `VST`, `AU` or `CLAP`.
pub open spec fn is_effect_tag(tag: Seq<char>) -> bool {
    upper(tag) == "VST"@ || upper(tag) == "AU"@ || upper(tag) == "CLAP"@
}

/// The block is that of an effect: it has the tag of one, and says which it is.
pub open spec fn is_effect_block(n: NodeModel) -> bool {
    is_effect_tag(n.tag) && n.args.len() > 0
}

proof fn lemma_effects(children: Seq<NodeModel>, n: int)
    requires
        0 <= n <= children.len(),
    ensures
        ({
            let at = chosen(n, |i: int| is_effect_block(children[i]));
            let found = fx_chain_of(children.take(n));
            &&& found.len() == at.len()
            &&& forall|k: int|
                0 <= k < at.len() ==> Some(#[trigger] found[k]) == fx_of(children[at[k]])
        }),
    decreases n,
{
    let keep = |i: int| is_effect_block(children[i]);
    if n > 0 {
        lemma_effects(children, n - 1);
        let part = children.take(n);
        assert(part.drop_last() =~= children.take(n - 1));
        assert(part.last() == children[n - 1]);
        assert(keep(n - 1) == is_effect_block(children[n - 1]));
    }
}

/// The effects of a chain are those of its `VST`, `AU` and `CLAP` blocks, all of them, in
/// order.
pub proof fn law_effects(children: Seq<NodeModel>) -> (at: Seq<int>)
    ensures
        is_selection(at, children.len() as int, |i: int| is_effect_block(children[i])),
        fx_chain_of(children).len() == at.len(),
        forall|k: int|
            0 <= k < at.len() ==> Some(#[trigger] fx_chain_of(children)[k]) == fx_of(
                children[at[k]],
            ),
{
    let n = children.len() as int;
    let keep = |i: int| is_effect_block(children[i]);
    lemma_chosen(n, keep);
    lemma_effects(children, n);
    assert(children.take(n) =~= children);
    chosen(n, keep)
}

/// The effects of two lists of blocks are those of the one and then those of the other.
pub proof fn law_effects_of_joined(a: Seq<NodeModel>, b: Seq<NodeModel>)
    ensures
        fx_chain_of(a + b) == fx_chain_of(a) + fx_chain_of(b),
    decreases b.len(),
{
    if b.len() == 0 {
        assert(a + b =~= a);
        assert(fx_chain_of(a) + fx_chain_of(b) =~= fx_chain_of(a));
    } else {
        law_effects_of_joined(a, b.drop_last());
        assert((a + b).drop_last() =~= a + b.drop_last());
        assert((a + b).last() == b.last());
        assert(fx_chain_of(a + b) =~= fx_chain_of(a) + fx_chain_of(b));
    }
}

/// A block with any other tag changes nothing, wherever it stands.
pub proof fn law_other_blocks_are_passed_over(a: Seq<NodeModel>, other: NodeModel, b: Seq<NodeModel>)
    requires
        !is_effect_tag(other.tag),
    ensures
        fx_chain_of(a + seq![other] + b) == fx_chain_of(a + b),
        fx_chain_of(a + b) == fx_chain_of(a) + fx_chain_of(b),
{
    let one = seq![other];
    law_effects_of_joined(a + one, b);
    law_effects_of_joined(a, one);
    law_effects_of_joined(a, b);
    assert(one.last() == other);
    assert(fx_chain_of(one.drop_last()) =~= Seq::empty());
    assert(fx_chain_of(one) =~= Seq::empty());
    assert(fx_chain_of(a) + fx_chain_of(one) =~= fx_chain_of(a));
}

// ---------------------------------------------------------------------------
// Effects
// ---------------------------------------------------------------------------

/// A display name with a prefix is of the format that the prefix names, and what stands
/// behind the prefix is kept. One without is of the format of the block's tag.
pub proof fn law_format(rest: Seq<char>, tag: Seq<char>)
    ensures
        format_and_rest("VST3: "@ + rest, tag) == (PluginFormat::Vst3, rest),
        format_and_rest("VST: "@ + rest, tag) == (PluginFormat::Vst2, rest),
        format_and_rest("AU: "@ + rest, tag) == (PluginFormat::Au, rest),
        format_and_rest("CLAP: "@ + rest, tag) == (PluginFormat::Clap, rest),
{
    reveal_strlit("VST3: ");
    reveal_strlit("VST: ");
    reveal_strlit("AU: ");
    reveal_strlit("CLAP: ");
    let a = "VST3: "@ + rest;
    let b = "VST: "@ + rest;
    let c = "AU: "@ + rest;
    let d = "CLAP: "@ + rest;
    law_strip_prefix(a, "VST3: "@, rest);
    law_strip_prefix(b, "VST: "@, rest);
    law_strip_prefix(c, "AU: "@, rest);
    law_strip_prefix(d, "CLAP: "@, rest);
    assert(b[3] == ':' && c[0] == 'A' && d[0] == 'C');
    lemma_no_prefix(b, "VST3: "@, 3);
    lemma_no_prefix(c, "VST3: "@, 0);
    lemma_no_prefix(c, "VST: "@, 0);
    lemma_no_prefix(d, "VST3: "@, 0);
    lemma_no_prefix(d, "VST: "@, 0);
    lemma_no_prefix(d, "AU: "@, 0);
}

/// A text does not begin with another from which it differs at an index.
proof fn lemma_no_prefix(s: Seq<char>, p: Seq<char>, i: int)
    requires
        0 <= i < p.len(),
        i < s.len() ==> s[i] != p[i],
    ensures
        strip_prefix(s, p) is None,
{
    if stands_at(s, p, 0) {
        assert(s.subrange(0, p.len() as int)[i] == s[i]);
    }
}

/// A display name without one of the prefixes is kept whole, and the tag of the block
/// tells the format: an Audio Unit, a CLAP plugin, or else VST2.
pub proof fn law_format_without_prefix(display: Seq<char>, tag: Seq<char>)
    requires
        forall|rest: Seq<char>|
            #![trigger "VST3: "@ + rest]
            display != "VST3: "@ + rest,
        forall|rest: Seq<char>|
            #![trigger "VST: "@ + rest]
            display != "VST: "@ + rest,
        forall|rest: Seq<char>|
            #![trigger "AU: "@ + rest]
            display != "AU: "@ + rest,
        forall|rest: Seq<char>|
            #![trigger "CLAP: "@ + rest]
            display != "CLAP: "@ + rest,
    ensures
        format_and_rest(display, tag).1 == display,
        format_and_rest(display, tag).0 == PluginFormat::Au <==> eq_ignore_case(tag, "AU"@),
        format_and_rest(display, tag).0 == PluginFormat::Clap <==> !eq_ignore_case(tag, "AU"@)
            && eq_ignore_case(tag, "CLAP"@),
        format_and_rest(display, tag).0 == PluginFormat::Vst2 <==> !eq_ignore_case(tag, "AU"@)
            && !eq_ignore_case(tag, "CLAP"@),
{
    lemma_not_prefixed(display, "VST3: "@);
    lemma_not_prefixed(display, "VST: "@);
    lemma_not_prefixed(display, "AU: "@);
    lemma_not_prefixed(display, "CLAP: "@);
}

proof fn lemma_not_prefixed(s: Seq<char>, p: Seq<char>)
    requires
        forall|rest: Seq<char>| #![trigger p + rest] s != p + rest,
    ensures
        strip_prefix(s, p) is None,
{
    if strip_prefix(s, p) is Some {
        let rest = strip_prefix(s, p)->Some_0;
        law_strip_prefix(s, p, rest);
        assert(s != p + rest);
    }
}

/// The last parentheses of a display name hold the vendor: what stands before them is
/// the name, what stands in them the vendor, both without white space round them. The
/// vendor may be followed by any number of closing parentheses.
pub proof fn law_name_and_vendor(
    name: Seq<char>,
    gap: Seq<char>,
    vendor: Seq<char>,
    n: nat,
)
    requires
        is_bounded(name),
        is_bounded(vendor),
        is_blank(gap),
        vendor.len() > 0,
        vendor.last() != ')',
        forall|i: int| 0 <= i < vendor.len() ==> #[trigger] vendor[i] != '(',
    ensures
        name_and_vendor(name + gap + seq!['('] + vendor + Seq::new(n, |i: int| ')')) == (
            name,
            Some(vendor),
        ),
{
    let tail = Seq::new(n, |i: int| ')');
    let none = Seq::<char>::empty();
    let rest = name + gap + seq!['('] + vendor + tail;
    let at = (name.len() + gap.len()) as int;
    assert(rest[at] == '(');
    assert forall|i: int| at < i < rest.len() implies #[trigger] rest[i] != '(' by {
        if i < at + 1 + vendor.len() {
            assert(rest[i] == vendor[i - at - 1]);
        }
    }
    law_rfind(rest, '(');
    assert(rfind(rest, '(') == Some(at)) by {
        if rfind(rest, '(') is Some {
            let i = rfind(rest, '(')->Some_0;
            if i < at {
                assert(rest[at] != '(');
            }
        } else {
            assert(rest[at] != '(');
        }
    }
    assert(rest.take(at) =~= none + name + gap);
    law_trim(none, name, gap);
    assert(rest.skip(at + 1) =~= vendor + tail);
    law_trim_end_char(vendor, ')', n);
    assert(none + vendor + none =~= vendor);
    law_trim(none, vendor, none);
}

/// A display name without a parenthesis is the name, and there is no vendor.
pub proof fn law_name_without_vendor(name: Seq<char>)
    requires
        forall|i: int| 0 <= i < name.len() ==> #[trigger] name[i] != '(',
    ensures
        name_and_vendor(name) == (name, None::<Seq<char>>),
{
    law_rfind(name, '(');
}

/// The number of an identifier stands before its brace and the GUID from there on. An
/// identifier without a brace is a number.
pub proof fn law_uid_parts(num: Seq<char>, inner: Seq<char>)
    requires
        forall|i: int| 0 <= i < num.len() ==> #[trigger] num[i] != '{',
        inner.len() >= 2,
    ensures
        uid_parts(num).1 is None,
        num.len() > 0 ==> uid_parts(num).0 == Some(num),
        num.len() == 0 ==> uid_parts(num).0 is None,
        uid_parts(num + (seq!['{'] + inner)).1 == Some(seq!['{'] + inner),
        uid_parts(num + (seq!['{'] + inner)).0 == uid_parts(num).0,
{
    let guid = seq!['{'] + inner;
    let all = num + guid;
    lemma_find_from_is(num, '{', 0, num.len() as int);
    let n = num.len() as int;
    assert forall|i: int| 0 <= i < n implies all[i] != '{' by {
        assert(all[i] == num[i]);
    }
    assert(all[n] == '{');
    lemma_find_from_is(all, '{', 0, n);
    assert(all.skip(n) =~= guid);
    assert(all.take(n) =~= num);
    lemma_encoded_len(guid);
}

/// Braces with nothing between them, or a brace alone, are no GUID.
pub proof fn law_no_guid(num: Seq<char>, inner: Seq<char>)
    requires
        forall|i: int| 0 <= i < num.len() ==> #[trigger] num[i] != '{',
        inner.len() == 0 || inner == seq!['}'],
    ensures
        uid_parts(num + (seq!['{'] + inner)).1 is None,
        uid_parts(num + (seq!['{'] + inner)).0 == uid_parts(num).0,
{
    let guid = seq!['{'] + inner;
    let all = num + guid;
    lemma_find_from_is(num, '{', 0, num.len() as int);
    let n = num.len() as int;
    assert forall|i: int| 0 <= i < n implies all[i] != '{' by {
        assert(all[i] == num[i]);
    }
    assert(all[n] == '{');
    lemma_find_from_is(all, '{', 0, n);
    assert(all.skip(n) =~= guid);
    assert(all.take(n) =~= num);
    reveal_with_fuel(vstd::utf8::encode_utf8, 3);
    assert(vstd::utf8::encode_scalar('{' as u32).len() == 1);
    assert(vstd::utf8::encode_scalar('}' as u32).len() == 1);
    assert(guid.drop_first() =~= inner);
    if inner.len() > 0 {
        assert(inner.drop_first() =~= Seq::empty());
    }
}

/// A text takes at least a byte for each character.
proof fn lemma_encoded_len(s: Seq<char>)
    ensures
        vstd::utf8::encode_utf8(s).len() >= s.len(),
    decreases s.len(),
{
    reveal_with_fuel(vstd::utf8::encode_utf8, 2);
    if s.len() > 0 {
        lemma_encoded_len(s.drop_first());
        assert(vstd::utf8::encode_scalar(s[0] as u32).len() >= 1);
    }
}

/// An effect is read from the arguments of its block: the display name, the file, whether
/// it is bypassed, and the preset and the identifier, where they are not empty.
pub proof fn law_effect(node: NodeModel)
    ensures
        fx_of(node) is Some <==> node.args.len() > 0,
        fx_of(node) matches Some(fx) ==> {
            let shown = format_and_rest(node.args[0], node.tag);
            &&& fx.format == shown.0
            &&& (fx.name, fx.vendor) == name_and_vendor(shown.1)
            &&& node.args.len() > 1 ==> fx.filename == node.args[1]
            &&& node.args.len() <= 1 ==> fx.filename.len() == 0
            &&& fx.is_bypassed <==> node.args.len() > 2 && node.args[2] != "0"@
            &&& node.args.len() > 3 && node.args[3].len() > 0 ==> fx.preset_name == Some(
                node.args[3],
            )
            &&& node.args.len() <= 3 || node.args[3].len() == 0 ==> fx.preset_name is None
            &&& node.args.len() > 4 ==> (fx.vst_uid, fx.vst3_guid) == uid_parts(node.args[4])
            &&& node.args.len() <= 4 ==> fx.vst_uid is None && fx.vst3_guid is None
            &&& state_text(node.lines).len() > 0 ==> fx.opaque_state == Some(state_text(node.lines))
            &&& state_text(node.lines).len() == 0 ==> fx.opaque_state is None
        },
{
    reveal_strlit("0");
    assert("0"@ =~= seq!['0']);
}

/// The word, in capitals, is one of those that begin an attribute.
pub open spec fn is_keyword(word: Seq<char>) -> bool {
    let key = upper(word);
    key == "BYPASS"@ || key == "PRESETNAME"@ || key == "FLOATPOS"@ || key == "FXID"@ || key
        == "SHOW"@ || key == "WAK"@
}

/// The state of two lists of lines is that of the one and then that of the other. A line
/// that begins with the keyword of an attribute adds nothing, and any other line all its
/// tokens.
pub proof fn law_state_text(
    a: Seq<Seq<Seq<char>>>,
    b: Seq<Seq<Seq<char>>>,
    line: Seq<Seq<char>>,
)
    ensures
        state_text(a + b) == state_text(a) + state_text(b),
        line.len() == 0 || is_keyword(line[0]) ==> state_text(seq![line]).len() == 0,
        line.len() > 0 && !is_keyword(line[0]) ==> state_text(seq![line]) == concat(line),
    decreases b.len(),
{
    let single = seq![line];
    assert(single.last() == line);
    assert(state_text(single.drop_last()) =~= Seq::empty());
    assert(Seq::<char>::empty() + concat(line) =~= concat(line));
    if b.len() == 0 {
        assert(a + b =~= a);
        assert(state_text(a) + state_text(b) =~= state_text(a));
    } else {
        law_state_text(a, b.drop_last(), line);
        assert((a + b).drop_last() =~= a + b.drop_last());
        assert((a + b).last() == b.last());
        assert(state_text(a + b) =~= state_text(a) + state_text(b));
    }
}

// ---------------------------------------------------------------------------
// Tracks
// ---------------------------------------------------------------------------

proof fn lemma_tracks(children: Seq<NodeModel>, n: int)
    requires
        0 <= n <= children.len(),
    ensures
        ({
            let at = chosen(n, |i: int| eq_ignore_case(children[i].tag, "TRACK"@));
            let found = tracks_of(children.take(n));
            &&& found.len() == at.len()
            &&& forall|k: int| 0 <= k < at.len() ==> #[trigger] found[k] == track_of(children[at[k]])
        }),
    decreases n,
{
    let keep = |i: int| eq_ignore_case(children[i].tag, "TRACK"@);
    if n > 0 {
        lemma_tracks(children, n - 1);
        let part = children.take(n);
        assert(part.drop_last() =~= children.take(n - 1));
        assert(part.last() == children[n - 1]);
        assert(keep(n - 1) == eq_ignore_case(children[n - 1].tag, "TRACK"@));
    }
}

/// The tracks of a project are those of its `TRACK` blocks, all of them, in order.
pub proof fn law_tracks(children: Seq<NodeModel>) -> (at: Seq<int>)
    ensures
        is_selection(
            at,
            children.len() as int,
            |i: int| eq_ignore_case(children[i].tag, "TRACK"@),
        ),
        tracks_of(children).len() == at.len(),
        forall|k: int|
            0 <= k < at.len() ==> #[trigger] tracks_of(children)[k] == track_of(children[at[k]]),
{
    let n = children.len() as int;
    let keep = |i: int| eq_ignore_case(children[i].tag, "TRACK"@);
    lemma_chosen(n, keep);
    lemma_tracks(children, n);
    assert(children.take(n) =~= children);
    chosen(n, keep)
}

/// The line at `k` is the first that begins with the word.
pub open spec fn is_first_line(lines: Seq<Seq<Seq<char>>>, key: Seq<char>, k: int) -> bool {
    &&& 0 <= k < lines.len()
    &&& lines[k].len() > 0
    &&& eq_ignore_case(lines[k][0], key)
    &&& forall|j: int|
        0 <= j < k ==> !((#[trigger] lines[j]).len() > 0 && eq_ignore_case(lines[j][0], key))
}

proof fn lemma_attribute_from(lines: Seq<Seq<Seq<char>>>, key: Seq<char>, i: int, k: int)
    requires
        0 <= i <= k,
        is_first_line(lines, key, k),
    ensures
        attribute_from(lines, key, i) == (if lines[k].len() > 1 {
            Some(lines[k][1])
        } else {
            None
        }),
    decreases k - i,
{
    if i < k {
        lemma_attribute_from(lines, key, i + 1, k);
    }
}

proof fn lemma_no_attribute(lines: Seq<Seq<Seq<char>>>, key: Seq<char>, i: int)
    requires
        0 <= i,
        forall|j: int|
            0 <= j < lines.len() ==> !((#[trigger] lines[j]).len() > 0 && eq_ignore_case(
                lines[j][0],
                key,
            )),
    ensures
        attribute_from(lines, key, i) is None,
    decreases lines.len() - i,
{
    if i < lines.len() {
        lemma_no_attribute(lines, key, i + 1);
    }
}

proof fn lemma_block_from(children: Seq<NodeModel>, tag: Seq<char>, i: int) -> (k: int)
    requires
        0 <= i <= children.len(),
    ensures
        match block_from(children, tag, i) {
            Some(b) => i <= k < children.len() && children[k] == b && eq_ignore_case(b.tag, tag)
                && forall|j: int|
                i <= j < k ==> !eq_ignore_case((#[trigger] children[j]).tag, tag),
            None => forall|j: int|
                i <= j < children.len() ==> !eq_ignore_case((#[trigger] children[j]).tag, tag),
        },
    decreases children.len() - i,
{
    if i < children.len() && !eq_ignore_case(children[i].tag, tag) {
        lemma_block_from(children, tag, i + 1)
    } else {
        i
    }
}

/// A track is named by its first `NAME` line. Its GUID is its first argument, where that
/// begins with a brace.
pub proof fn law_track_name(node: NodeModel, k: int)
    ensures
        is_first_line(node.lines, "NAME"@, k) && node.lines[k].len() > 1 ==> track_of(node).name
            == node.lines[k][1],
        is_first_line(node.lines, "NAME"@, k) && node.lines[k].len() == 1 ==> track_of(
            node,
        ).name.len() == 0,
        (forall|j: int|
            0 <= j < node.lines.len() ==> !((#[trigger] node.lines[j]).len() > 0 && eq_ignore_case(
                node.lines[j][0],
                "NAME"@,
            ))) ==> track_of(node).name.len() == 0,
        match track_of(node).guid {
            Some(g) => node.args.len() > 0 && g == node.args[0] && g.len() > 0 && g[0] == '{',
            None => node.args.len() == 0 || node.args[0].len() == 0 || node.args[0][0] != '{',
        },
{
    if is_first_line(node.lines, "NAME"@, k) {
        lemma_attribute_from(node.lines, "NAME"@, 0, k);
    }
    if forall|j: int|
        0 <= j < node.lines.len() ==> !((#[trigger] node.lines[j]).len() > 0 && eq_ignore_case(
            node.lines[j][0],
            "NAME"@,
        )) {
        lemma_no_attribute(node.lines, "NAME"@, 0);
    }
}

/// The effects of a track are those of its first `FXCHAIN` block. Without one it has none.
pub proof fn law_track_chain(node: NodeModel) -> (k: int)
    ensures
        ({
            ||| 0 <= k < node.children.len() && eq_ignore_case(node.children[k].tag, "FXCHAIN"@)
                && (forall|j: int|
                0 <= j < k ==> !eq_ignore_case((#[trigger] node.children[j]).tag, "FXCHAIN"@))
                && track_of(node).fx_chain == fx_chain_of(node.children[k].children)
            ||| (forall|j: int|
                0 <= j < node.children.len() ==> !eq_ignore_case(
                    (#[trigger] node.children[j]).tag,
                    "FXCHAIN"@,
                )) && track_of(node).fx_chain.len() == 0
        }),
{
    lemma_block_from(node.children, "FXCHAIN"@, 0)
}

// ---------------------------------------------------------------------------
// Projects
// ---------------------------------------------------------------------------

/// The line opens a project: an angle bracket and the word `REAPER_PROJECT`.
pub open spec fn opens_project(line: Seq<char>) -> bool {
    let t = trim(line);
    &&& t.len() > 0
    &&& t[0] == '<'
    &&& tokens(t.skip(1)).len() > 0
    &&& eq_ignore_case(tokens(t.skip(1))[0], "REAPER_PROJECT"@)
}

proof fn lemma_project_from(raw: Seq<Seq<char>>, i: int, k: int)
    requires
        0 <= i <= k < raw.len(),
        opens_project(raw[k]),
        forall|j: int| 0 <= j < k ==> !opens_project(#[trigger] raw[j]),
    ensures
        project_from(raw, i) == project_from(raw, k),
    decreases k - i,
{
    if i < k {
        assert(!opens_project(raw[i]));
        lemma_project_from(raw, i + 1, k);
    }
}

proof fn lemma_no_project(raw: Seq<Seq<char>>, i: int)
    requires
        0 <= i,
        forall|j: int| 0 <= j < raw.len() ==> !opens_project(#[trigger] raw[j]),
    ensures
        project_from(raw, i) is None,
    decreases raw.len() - i,
{
    if i < raw.len() {
        assert(!opens_project(raw[i]));
        lemma_no_project(raw, i + 1);
    }
}

/// The project is the first block that a line opens with `REAPER_PROJECT`. Its version
/// and that of the application are the words behind, where they stand there, and its
/// tracks those in the block.
pub proof fn law_project(content: Seq<char>, raw: Seq<Seq<char>>, k: int)
    requires
        raw == lines(content),
        0 <= k < raw.len(),
        opens_project(raw[k]),
        forall|j: int| 0 <= j < k ==> !opens_project(#[trigger] raw[j]),
    ensures
        match project_of(content) {
            Some(p) => {
                let toks = tokens(trim(raw[k]).skip(1));
                &&& toks.len() > 1 ==> p.version == toks[1]
                &&& toks.len() <= 1 ==> p.version.len() == 0
                &&& toks.len() > 2 ==> p.app_version == toks[2]
                &&& toks.len() <= 2 ==> p.app_version.len() == 0
                &&& p.tracks == tracks_of(read_body(raw, k + 1).children)
            },
            None => false,
        },
{
    lemma_project_from(raw, 0, k);
}

/// Without such a line there is no project.
pub proof fn law_no_project(content: Seq<char>, raw: Seq<Seq<char>>)
    requires
        raw == lines(content),
        forall|j: int| 0 <= j < raw.len() ==> !opens_project(#[trigger] raw[j]),
    ensures
        project_of(content) is None,
{
    lemma_no_project(raw, 0);
}

// ---------------------------------------------------------------------------
// Lines
// ---------------------------------------------------------------------------

/// Between quotes a backslash gives the character behind it, where `n`, `r` and `t` give
/// a line feed, a carriage return and a tab.
pub proof fn law_escaped(s: Seq<char>, i: int)
    requires
        0 <= i,
        i + 1 < s.len(),
        s[i] == '\\',
    ensures
        quoted(s, i).1 == quoted(s, i + 2).1,
        quoted(s, i).0.len() == quoted(s, i + 2).0.len() + 1,
        quoted(s, i).0.skip(1) == quoted(s, i + 2).0,
        s[i + 1] == 'n' ==> quoted(s, i).0[0] == '\n',
        s[i + 1] == 'r' ==> quoted(s, i).0[0] == '\r',
        s[i + 1] == 't' ==> quoted(s, i).0[0] == '\t',
        s[i + 1] != 'n' && s[i + 1] != 'r' && s[i + 1] != 't' ==> quoted(s, i).0[0] == s[i + 1],
{
    assert(quoted(s, i).0.skip(1) =~= quoted(s, i + 2).0);
}

/// Inside a block, the line `>` ends it, a line with an angle bracket opens a block in
/// it, and any other line with a token is one of its lines.
pub proof fn law_body(raw: Seq<Seq<char>>, p: int)
    requires
        0 <= p < raw.len(),
    ensures
        ({
            let t = trim(raw[p]);
            let body = read_body(raw, p);
            let rest = read_body(raw, p + 1);
            &&& t == ">"@ ==> body.lines.len() == 0 && body.children.len() == 0 && body.next == p
                + 1
            &&& t.len() > 0 && t[0] == '<' && tokens(t.skip(1)).len() > 0 ==> {
                let behind = read_body(raw, rest.next);
                &&& body.next == behind.next
                &&& body.lines == behind.lines
                &&& body.children.len() == behind.children.len() + 1
                &&& body.children.skip(1) == behind.children
                &&& body.children[0].tag == tokens(t.skip(1))[0]
                &&& body.children[0].args == tokens(t.skip(1)).skip(1)
                &&& body.children[0].lines == rest.lines
                &&& body.children[0].children == rest.children
            }
            &&& t != ">"@ && !(t.len() > 0 && t[0] == '<') && tokens(t).len() > 0 ==> {
                &&& body.next == rest.next
                &&& body.children == rest.children
                &&& body.lines.len() == rest.lines.len() + 1
                &&& body.lines[0] == tokens(t)
                &&& body.lines.skip(1) == rest.lines
            }
        }),
{
    reveal_strlit(">");
    assert(">"@ =~= seq!['>']);
    lemma_body_next(raw, p + 1);
    let t = trim(raw[p]);
    let body = read_body(raw, p);
    let rest = read_body(raw, p + 1);
    if t.len() > 0 && t[0] == '<' && tokens(t.skip(1)).len() > 0 {
        assert(t != seq!['>']) by {
            assert(t[0] == '<');
        }
        assert(body.children.skip(1) =~= read_body(raw, rest.next).children);
    } else if t != ">"@ && !(t.len() > 0 && t[0] == '<') && tokens(t).len() > 0 {
        assert(body.lines.skip(1) =~= rest.lines);
    }
}

/// An error says what failed, and then why.
pub proof fn law_error_text(e: ReaperError)
    ensures
        e matches ReaperError::Io(t) ==> e.text() == "I/O error: "@ + t@,
        e matches ReaperError::Format(t) ==> e.text() == "Format error: "@ + t@,
{
}

} // verus!
