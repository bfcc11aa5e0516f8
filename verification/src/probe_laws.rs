//! What holds of every answer of a probe.
use vstd::prelude::*;

use crate::bytes::zero_from;
use crate::probe::{
    binary_of, buffer_text, feature_texts, plugin_text, trimmed_text, BinaryFacts,
    AUDIO_MASTER_VERSION, EFF_CLOSE, EFF_GET_EFFECT_NAME, EFF_GET_PLUG_CATEGORY,
    EFF_GET_VENDOR_STRING, EFF_OPEN, VST_2_4_VERSION, VST_MAGIC,
};
use crate::text::{lossy, trim};

verus! {

/// The binary of a bundle is the file named like the bundle, where it is there; else the
/// one that its property list names, where that is there; else the first file of the
/// folder. Without one there is an error.
pub proof fn law_binary(f: BinaryFacts)
    ensures
        ({
            let stem = f.by_stem is Some && f.by_stem->Some_0.is_file;
            let plist = f.by_plist is Some && f.by_plist->Some_0.is_file;
            &&& stem ==> binary_of(f) == Ok::<Seq<char>, Seq<char>>(f.by_stem->Some_0.path@)
            &&& !stem && plist ==> binary_of(f) == Ok::<Seq<char>, Seq<char>>(
                f.by_plist->Some_0.path@,
            )
            &&& !stem && !plist ==> match f.first_file {
                Ok(Some(path)) => binary_of(f) == Ok::<Seq<char>, Seq<char>>(path@),
                Ok(None) => binary_of(f) == Err::<Seq<char>, Seq<char>>(
                    "no binary found in "@ + f.folder@,
                ),
                Err(e) => binary_of(f) == Err::<Seq<char>, Seq<char>>(
                    "cannot read "@ + f.folder@ + ": "@ + e@,
                ),
            }
        }),
{
}

/// A text of a plugin is given without white space round it, and a blank one is none.
pub proof fn law_plugin_text(bytes: Vec<u8>, s: Seq<char>)
    ensures
        plugin_text(None) is None,
        trim(lossy(bytes@)).len() == 0 ==> plugin_text(Some(bytes)) is None,
        trim(lossy(bytes@)).len() > 0 ==> plugin_text(Some(bytes)) == Some(trim(lossy(bytes@))),
        trim(s).len() == 0 ==> trimmed_text(s) is None,
        trim(s).len() > 0 ==> trimmed_text(s) == Some(trim(s)),
        vstd::utf8::valid_utf8(bytes@) ==> lossy(bytes@) == vstd::utf8::decode_utf8(bytes@),
{
}

proof fn lemma_zero(s: Seq<u8>, i: int, n: int)
    requires
        0 <= i <= n <= s.len(),
        forall|k: int| 0 <= k < n ==> #[trigger] s[k] != 0,
        n < s.len() ==> s[n] == 0,
    ensures
        zero_from(s, i) == n,
    decreases n - i,
{
    if i < n {
        lemma_zero(s, i + 1, n);
    }
}

/// What a plugin wrote into a buffer ends before the first zero byte.
pub proof fn law_buffer(head: Seq<u8>, rest: Seq<u8>)
    requires
        forall|i: int| 0 <= i < head.len() ==> #[trigger] head[i] != 0,
    ensures
        buffer_text(head) == trimmed_text(lossy(head)),
        buffer_text(head + seq![0u8] + rest) == trimmed_text(lossy(head)),
{
    let n = head.len() as int;
    let all = head + seq![0u8] + rest;
    lemma_zero(head, 0, n);
    assert(head.take(n) =~= head);
    assert forall|k: int| 0 <= k < n implies #[trigger] all[k] != 0 by {
        assert(all[k] == head[k]);
    }
    lemma_zero(all, 0, n);
    assert(all.take(n) =~= head);
}

/// The features of a plugin are given as they are, in order.
pub proof fn law_features(list: Seq<Vec<u8>>)
    ensures
        feature_texts(list).len() == list.len(),
        forall|i: int| 0 <= i < list.len() ==> #[trigger] feature_texts(list)[i] == lossy(list[i]@),
{
}

/// The codes of the VST 2.4 interface.
pub proof fn law_vst2_codes()
    ensures
        EFF_OPEN == 0,
        EFF_CLOSE == 1,
        EFF_GET_PLUG_CATEGORY == 35,
        EFF_GET_EFFECT_NAME == 45,
        EFF_GET_VENDOR_STRING == 47,
        AUDIO_MASTER_VERSION == 6,
        VST_2_4_VERSION == 2400,
        VST_MAGIC == ('V' as u32) * 0x100_0000 + ('s' as u32) * 0x1_0000 + ('t' as u32) * 0x100 + (
        'P' as u32),
{
}

} // verus!
