//! What Reaper reads back of a chain that was written for it.
use vstd::prelude::*;

use crate::daw_readers::reaper::{
    arg_or_empty, attribute_from, block_from, format_and_rest, fx_chain_of, fx_of, is_attribute,
    is_fx_tag, lemma_body_next, lemma_quoted_end, name_and_vendor, non_empty, project_header,
    project_of, quoted, read_body, state_text, tokens, tokens_from, track_of, tracks_of, uid_parts,
    word_end, Body, FxModel, NodeModel, PluginFormat, ProjectModel, TrackModel,
};
use crate::daw_writers::reaper::{
    block_tag, chain_header, chunk_text, display_name, format_prefix, fx_block, fx_blocks,
    fx_header, rfxchain, state_lines, state_section, uid_field,
};
use crate::db::SlotModel;
use crate::json::{text_or, FieldModel};
use crate::text::{
    concat, eq_ignore_case, is_whitespace, lemma_find_from, lemma_find_from_is, lines, lines_from,
    rfind_before, trim, trim_end, trim_end_char, trim_start, upper,
};

verus! {

// ---------------------------------------------------------------------------
// White space around a text
// ---------------------------------------------------------------------------

/// The text neither begins nor ends with white space.
pub open spec fn is_tight(s: Seq<char>) -> bool {
    s.len() > 0 ==> !is_whitespace(s[0]) && !is_whitespace(s.last())
}

/// The text holds no white space.
pub open spec fn is_word(s: Seq<char>) -> bool {
    forall|i: int| 0 <= i < s.len() ==> !is_whitespace(#[trigger] s[i])
}

/// Spaces before a text are trimmed.
proof fn lemma_trim_start(spaces: Seq<char>, s: Seq<char>)
    requires
        forall|i: int| 0 <= i < spaces.len() ==> #[trigger] spaces[i] == ' ',
        s.len() > 0 ==> !is_whitespace(s[0]),
    ensures
        trim_start(spaces + s) == s,
    decreases spaces.len(),
{
    let all = spaces + s;
    if spaces.len() == 0 {
        assert(all =~= s);
    } else {
        assert(all[0] == ' ');
        assert(all.drop_first() =~= spaces.drop_first() + s);
        assert forall|i: int| 0 <= i < spaces.drop_first().len() implies #[trigger]
            spaces.drop_first()[i] == ' ' by {
            assert(spaces.drop_first()[i] == spaces[i + 1]);
        }
        lemma_trim_start(spaces.drop_first(), s);
    }
}

/// A text that is padded with spaces in front, and with one or none behind, is trimmed
/// to itself.
proof fn lemma_trim(spaces: Seq<char>, s: Seq<char>, pad: Seq<char>)
    requires
        forall|i: int| 0 <= i < spaces.len() ==> #[trigger] spaces[i] == ' ',
        is_tight(s),
        s.len() > 0,
        pad.len() == 0 || pad =~= seq![' '],
    ensures
        trim(spaces + (s + pad)) == s,
{
    assert((s + pad)[0] == s[0]);
    lemma_trim_start(spaces, s + pad);
    if pad.len() == 0 {
        assert(s + pad =~= s);
    } else {
        assert((s + pad).last() == ' ');
        assert((s + pad).drop_last() =~= s);
        assert(trim_end(s) == s);
    }
}

/// A text without white space at its ends is trimmed to itself.
proof fn lemma_trim_tight(s: Seq<char>)
    requires
        is_tight(s),
    ensures
        trim(s) == s,
{
    if s.len() > 0 {
        lemma_trim(Seq::empty(), s, Seq::empty());
        assert(Seq::<char>::empty() + (s + Seq::<char>::empty()) =~= s);
    }
}

/// A space behind a text without white space at its ends is trimmed.
proof fn lemma_trim_space(s: Seq<char>)
    requires
        is_tight(s),
    ensures
        trim(s + seq![' ']) == s,
{
    if s.len() > 0 {
        lemma_trim(Seq::empty(), s, seq![' ']);
        assert(Seq::<char>::empty() + (s + seq![' ']) =~= s + seq![' ']);
    } else {
        let one = s + seq![' '];
        assert(one[0] == ' ');
        assert(one.drop_first() =~= s);
        assert(trim_start(one) == trim_start(s));
    }
}

// ---------------------------------------------------------------------------
// Lines
// ---------------------------------------------------------------------------

/// The text of lines, each with a line feed behind it.
pub open spec fn unlines(list: Seq<Seq<char>>) -> Seq<char>
    decreases list.len(),
{
    if list.len() == 0 {
        Seq::empty()
    } else {
        unlines(list.drop_last()) + list.last() + "\n"@
    }
}

/// The line holds no line feed, and no carriage return at its end.
pub open spec fn is_line(s: Seq<char>) -> bool {
    &&& forall|i: int| 0 <= i < s.len() ==> #[trigger] s[i] != '\n'
    &&& s.len() > 0 ==> s.last() != '\r'
}

/// The text of two lists of lines.
proof fn lemma_unlines_add(a: Seq<Seq<char>>, b: Seq<Seq<char>>)
    ensures
        unlines(a + b) == unlines(a) + unlines(b),
    decreases b.len(),
{
    if b.len() == 0 {
        assert(a + b =~= a);
        assert(unlines(a) + unlines(b) =~= unlines(a));
    } else {
        lemma_unlines_add(a, b.drop_last());
        assert((a + b).drop_last() =~= a + b.drop_last());
        assert(unlines(a + b) =~= unlines(a) + unlines(b));
    }
}

/// The text of one line.
proof fn lemma_unlines_one(line: Seq<char>)
    ensures
        unlines(seq![line]) == line + "\n"@,
{
    let one = seq![line];
    assert(one.drop_last() =~= Seq::empty());
    assert(one.last() == line);
    assert(unlines(one.drop_last()) =~= Seq::empty());
    assert(unlines(one) =~= line + "\n"@);
}

/// The first line of a text, behind `before`.
proof fn lemma_first_line(before: Seq<char>, line: Seq<char>, rest: Seq<char>)
    requires
        is_line(line),
    ensures
        lines_from(before + line + "\n"@ + rest, before.len() as int) == seq![line] + lines_from(
            before + line + "\n"@ + rest,
            (before.len() + line.len() + 1) as int,
        ),
{
    reveal_strlit("\n");
    let s = before + line + "\n"@ + rest;
    let i = before.len() as int;
    let k = i + line.len();
    assert(s[k] == '\n');
    assert forall|j: int| i <= j < k implies s[j] != '\n' by {
        assert(s[j] == line[j - i]);
    }
    lemma_find_from_is(s, '\n', i, k);
    assert(s.subrange(i, k) =~= line);
}

/// Lines that were put together come apart again, behind `before`.
proof fn lemma_lines_from(before: Seq<char>, list: Seq<Seq<char>>)
    requires
        forall|i: int| 0 <= i < list.len() ==> is_line(#[trigger] list[i]),
    ensures
        lines_from(before + unlines(list), before.len() as int) == list,
    decreases list.len(),
{
    reveal_strlit("\n");
    if list.len() == 0 {
        assert(before + unlines(list) =~= before);
    } else {
        let first = list[0];
        let others = list.skip(1);
        assert(list =~= seq![first] + others);
        lemma_unlines_add(seq![first], others);
        lemma_unlines_one(first);
        let rest = unlines(others);
        let s = before + unlines(list);
        assert(s =~= before + first + "\n"@ + rest);
        assert(is_line(list[0]));
        lemma_first_line(before, first, rest);
        let more = before + first + "\n"@;
        assert(s =~= more + rest);
        assert forall|i: int| 0 <= i < others.len() implies is_line(#[trigger] others[i]) by {
            assert(others[i] == list[i + 1]);
        }
        lemma_lines_from(more, others);
    }
}

/// Lines that were put together come apart again.
pub proof fn lemma_lines_unlines(list: Seq<Seq<char>>)
    requires
        forall|i: int| 0 <= i < list.len() ==> is_line(#[trigger] list[i]),
    ensures
        lines(unlines(list)) == list,
{
    lemma_lines_from(Seq::empty(), list);
    assert(Seq::<char>::empty() + unlines(list) =~= unlines(list));
}

// ---------------------------------------------------------------------------
// Tokens
// ---------------------------------------------------------------------------

/// The end of a word does not depend on what stands before it.
proof fn lemma_word_end_skip(s: Seq<char>, n: int, i: int)
    requires
        0 <= n <= i <= s.len(),
    ensures
        word_end(s, i) == word_end(s.skip(n), i - n) + n,
    decreases s.len() - i,
{
    if i < s.len() {
        assert(s.skip(n)[i - n] == s[i]);
        if !is_whitespace(s[i]) {
            lemma_word_end_skip(s, n, i + 1);
        }
    }
}

/// A quoted text does not depend on what stands before it.
proof fn lemma_quoted_skip(s: Seq<char>, n: int, i: int)
    requires
        0 <= n <= i <= s.len(),
    ensures
        quoted(s, i).0 == quoted(s.skip(n), i - n).0,
        quoted(s, i).1 == quoted(s.skip(n), i - n).1 + n,
    decreases s.len() - i,
{
    let t = s.skip(n);
    if i < s.len() {
        assert(t[i - n] == s[i]);
        if s[i] == '\\' {
            if i + 1 < s.len() {
                assert(t[i - n + 1] == s[i + 1]);
                lemma_quoted_skip(s, n, i + 2);
            }
        } else if s[i] != '"' {
            lemma_quoted_skip(s, n, i + 1);
        }
    }
}

/// The tokens of a text do not depend on what stands before them.
proof fn lemma_tokens_skip(s: Seq<char>, n: int, i: int)
    requires
        0 <= n <= i <= s.len(),
    ensures
        tokens_from(s, i) == tokens_from(s.skip(n), i - n),
    decreases s.len() - i,
{
    let t = s.skip(n);
    if i < s.len() {
        assert(t[i - n] == s[i]);
        if is_whitespace(s[i]) {
            lemma_tokens_skip(s, n, i + 1);
        } else if s[i] == '"' {
            lemma_quoted_skip(s, n, i + 1);
            lemma_quoted_end(s, i + 1);
            lemma_tokens_skip(s, n, quoted(s, i + 1).1);
        } else {
            lemma_word_end_skip(s, n, i);
            let j = word_end(s, i);
            if i < j <= s.len() {
                assert(s.subrange(i, j) =~= t.subrange(i - n, j - n));
                lemma_tokens_skip(s, n, j);
            }
        }
    }
}

/// A word ends at the white space behind it.
proof fn lemma_word_end(s: Seq<char>, i: int, j: int)
    requires
        0 <= i <= j <= s.len(),
        forall|k: int| i <= k < j ==> !is_whitespace(#[trigger] s[k]),
        j == s.len() || is_whitespace(s[j]),
    ensures
        word_end(s, i) == j,
    decreases j - i,
{
    if i < j {
        lemma_word_end(s, i + 1, j);
    }
}

/// The first token of a text that begins with a word.
pub proof fn law_word_token(word: Seq<char>, rest: Seq<char>)
    requires
        word.len() > 0,
        is_word(word),
        word[0] != '"',
        rest.len() > 0 ==> is_whitespace(rest[0]),
    ensures
        tokens_from(word + rest, 0) == seq![word] + tokens_from(rest, 0),
{
    let s = word + rest;
    let n = word.len() as int;
    assert forall|k: int| 0 <= k < n implies !is_whitespace(#[trigger] s[k]) by {
        assert(s[k] == word[k]);
    }
    lemma_word_end(s, 0, n);
    assert(s.subrange(0, n) =~= word);
    lemma_tokens_skip(s, n, n);
    assert(s.skip(n) =~= rest);
}

/// A quoted text without quotes and backslashes ends at its closing quote.
proof fn lemma_quoted(s: Seq<char>, i: int, j: int)
    requires
        0 <= i <= j < s.len(),
        forall|k: int| i <= k < j ==> #[trigger] s[k] != '"' && s[k] != '\\',
        s[j] == '"',
    ensures
        quoted(s, i) == (s.subrange(i, j), j + 1),
    decreases j - i,
{
    if i < j {
        lemma_quoted(s, i + 1, j);
        assert(seq![s[i]] + s.subrange(i + 1, j) =~= s.subrange(i, j));
    } else {
        assert(s.subrange(i, j) =~= Seq::empty());
    }
}

/// The text can stand between quotes as it is.
pub open spec fn is_quotable(s: Seq<char>) -> bool {
    forall|i: int|
        0 <= i < s.len() ==> #[trigger] s[i] != '"' && s[i] != '\\' && s[i] != '\n'
}

/// The first token of a text that begins with a quoted text.
pub proof fn law_quoted_token(q: Seq<char>, rest: Seq<char>)
    requires
        is_quotable(q),
    ensures
        tokens_from(seq!['"'] + q + seq!['"'] + rest, 0) == seq![q] + tokens_from(rest, 0),
{
    let s = seq!['"'] + q + seq!['"'] + rest;
    let j = q.len() + 1;
    assert(s[0] == '"');
    assert(s[j as int] == '"');
    assert forall|k: int| 1 <= k < j implies #[trigger] s[k] != '"' && s[k] != '\\' by {
        assert(s[k] == q[k - 1]);
    }
    lemma_quoted(s, 1, j as int);
    assert(s.subrange(1, j as int) =~= q);
    lemma_tokens_skip(s, (j + 1) as int, (j + 1) as int);
    assert(s.skip((j + 1) as int) =~= rest);
}

/// White space before a text does not change its tokens.
pub proof fn law_blank_before_token(c: char, rest: Seq<char>)
    requires
        is_whitespace(c),
    ensures
        tokens_from(seq![c] + rest, 0) == tokens_from(rest, 0),
{
    let s = seq![c] + rest;
    assert(s[0] == c);
    lemma_tokens_skip(s, 1, 1);
    assert(s.skip(1) =~= rest);
}

// ---------------------------------------------------------------------------
// State
// ---------------------------------------------------------------------------

/// The text from index `i` on in stretches of 72 characters.
pub open spec fn chunks(s: Seq<char>, i: int) -> Seq<Seq<char>>
    decreases s.len() - i,
    when 0 <= i
{
    if i >= s.len() {
        Seq::empty()
    } else {
        let end = if i + 72 < s.len() {
            i + 72
        } else {
            s.len() as int
        };
        seq![s.subrange(i, end)] + chunks(s, end)
    }
}

/// The lines indented as those of a state.
pub open spec fn indented(list: Seq<Seq<char>>) -> Seq<Seq<char>> {
    list.map_values(|c: Seq<char>| "    "@ + c)
}

/// A character that state can hold: one that is seen, and is no quote or angle bracket.
/// All characters of base64 are of this kind.
pub open spec fn is_state_char(c: char) -> bool {
    '!' <= c && c <= '~' && c != '"' && c != '<' && c != '>'
}

/// The text of a state: the characters of a state only, and no line of it is an
/// attribute keyword.
pub open spec fn is_state(s: Seq<char>) -> bool {
    &&& forall|i: int| 0 <= i < s.len() ==> is_state_char(#[trigger] s[i])
    &&& forall|k: int|
        0 <= k < chunks(s, 0).len() ==> !is_attribute(#[trigger] chunks(s, 0)[k])
}

/// A stretch of the bytes of an ASCII text is that stretch of the text.
proof fn lemma_chunk_text(s: Seq<char>, i: int, j: int)
    requires
        vstd::utf8::is_ascii_chars(s),
        0 <= i <= j <= s.len(),
    ensures
        chunk_text(vstd::utf8::encode_utf8(s).subrange(i, j)) == s.subrange(i, j),
{
    let t = s.subrange(i, j);
    let bytes = vstd::utf8::encode_utf8(s);
    assert(vstd::utf8::is_ascii_chars(t)) by {
        assert forall|k: int| 0 <= k < t.len() implies '\0' <= #[trigger] t[k] && t[k]
            <= '\u{7f}' by {
            assert(t[k] == s[i + k]);
        }
    }
    vstd::utf8::is_ascii_chars_encode_utf8(s);
    vstd::utf8::is_ascii_chars_encode_utf8(t);
    assert(bytes.subrange(i, j) =~= vstd::utf8::encode_utf8(t)) by {
        assert forall|k: int| 0 <= k < t.len() implies bytes.subrange(i, j)[k]
            == vstd::utf8::encode_utf8(t)[k] by {
            assert(t[k] == s[i + k]);
            assert(bytes[i + k] == s[i + k] as u8);
        }
    }
    vstd::utf8::encode_utf8_valid_utf8(t);
    vstd::utf8::encode_utf8_decode_utf8(t);
}

/// The lines of a state are its stretches, indented.
proof fn lemma_state_lines(s: Seq<char>, i: int)
    requires
        vstd::utf8::is_ascii_chars(s),
        0 <= i,
    ensures
        state_lines(vstd::utf8::encode_utf8(s), i) == unlines(indented(chunks(s, i))),
    decreases s.len() - i,
{
    let bytes = vstd::utf8::encode_utf8(s);
    vstd::utf8::is_ascii_chars_encode_utf8(s);
    if i >= s.len() {
        assert(indented(chunks(s, i)) =~= Seq::empty());
    } else {
        let end = if i + 72 < s.len() {
            i + 72
        } else {
            s.len() as int
        };
        let chunk = s.subrange(i, end);
        lemma_chunk_text(s, i, end);
        lemma_state_lines(s, end);
        let rest = chunks(s, end);
        let line = "    "@ + chunk;
        assert(indented(chunks(s, i)) =~= seq![line] + indented(rest));
        lemma_unlines_add(seq![line], indented(rest));
        lemma_unlines_one(line);
        reveal_strlit("\n");
        assert("\n"@ =~= seq!['\n']);
    }
}

/// The stretches of a text from index `i` on are words of the text.
proof fn lemma_chunks(s: Seq<char>, i: int)
    requires
        0 <= i,
        forall|k: int| 0 <= k < s.len() ==> is_state_char(#[trigger] s[k]),
    ensures
        forall|k: int|
            #![trigger chunks(s, i)[k]]
            0 <= k < chunks(s, i).len() ==> is_state_word(chunks(s, i)[k]),
    decreases s.len() - i,
{
    if i < s.len() {
        let end = if i + 72 < s.len() {
            i + 72
        } else {
            s.len() as int
        };
        lemma_chunks(s, end);
        let chunk = s.subrange(i, end);
        assert(is_state_word(chunk)) by {
            assert forall|k: int| 0 <= k < chunk.len() implies is_state_char(#[trigger] chunk[k]) by {
                assert(chunk[k] == s[i + k]);
            }
        }
        let all = chunks(s, i);
        assert forall|k: int|
            #![trigger all[k]]
            0 <= k < all.len() implies is_state_word(all[k]) by {
            if k > 0 {
                assert(all[k] == chunks(s, end)[k - 1]);
            }
        }
    }
}

/// A word of the characters of a state.
pub open spec fn is_state_word(w: Seq<char>) -> bool {
    w.len() > 0 && forall|k: int| 0 <= k < w.len() ==> is_state_char(#[trigger] w[k])
}

/// A word of a state is the one token of its line.
proof fn lemma_state_word(w: Seq<char>)
    requires
        is_state_word(w),
    ensures
        is_tight(w),
        is_line(w),
        is_word(w),
        tokens(w) == seq![w],
        trim("    "@ + w) == w,
        is_line("    "@ + w),
{
    reveal_strlit("    ");
    assert forall|k: int| 0 <= k < w.len() implies !is_whitespace(#[trigger] w[k]) by {
        assert(is_state_char(w[k]));
    }
    assert(is_state_char(w[0]));
    assert(is_state_char(w[w.len() - 1]));
    lemma_trim_tight(w);
    law_word_token(w, Seq::empty());
    assert(w + Seq::<char>::empty() =~= w);
    assert(tokens_from(Seq::<char>::empty(), 0) =~= Seq::empty());
    assert(tokens(w) =~= seq![w]);
    lemma_trim("    "@, w, Seq::empty());
    assert("    "@ + (w + Seq::<char>::empty()) =~= "    "@ + w);
    let line = "    "@ + w;
    assert forall|k: int| 0 <= k < line.len() implies #[trigger] line[k] != '\n' by {
        if k >= 4 {
            assert(line[k] == w[k - 4]);
        }
    }
    assert(line.last() == w.last());
}

/// Each stretch as the one token of its line.
pub open spec fn token_rows(list: Seq<Seq<char>>) -> Seq<Seq<Seq<char>>> {
    list.map_values(|c: Seq<char>| seq![c])
}

/// The state of two lists of lines.
proof fn lemma_state_text_add(a: Seq<Seq<Seq<char>>>, b: Seq<Seq<Seq<char>>>)
    ensures
        state_text(a + b) == state_text(a) + state_text(b),
    decreases b.len(),
{
    if b.len() == 0 {
        assert(a + b =~= a);
        assert(state_text(a) + state_text(b) =~= state_text(a));
    } else {
        lemma_state_text_add(a, b.drop_last());
        assert((a + b).drop_last() =~= a + b.drop_last());
        assert(state_text(a + b) =~= state_text(a) + state_text(b));
    }
}

/// The stretches of a state from index `i` on are put together to the state from there.
proof fn lemma_state_text(s: Seq<char>, i: int)
    requires
        0 <= i <= s.len(),
        forall|k: int| 0 <= k < chunks(s, i).len() ==> !is_attribute(#[trigger] chunks(s, i)[k]),
    ensures
        state_text(token_rows(chunks(s, i))) == s.skip(i),
    decreases s.len() - i,
{
    let list = chunks(s, i);
    if i >= s.len() {
        assert(token_rows(list) =~= Seq::empty());
        assert(s.skip(i) =~= Seq::empty());
    } else {
        let end = if i + 72 < s.len() {
            i + 72
        } else {
            s.len() as int
        };
        let chunk = s.subrange(i, end);
        let rest = chunks(s, end);
        assert(list =~= seq![chunk] + rest);
        assert forall|k: int| 0 <= k < rest.len() implies !is_attribute(#[trigger] rest[k]) by {
            assert(rest[k] == list[k + 1]);
        }
        lemma_state_text(s, end);
        let first = seq![seq![chunk]];
        assert(token_rows(list) =~= first + token_rows(rest));
        lemma_state_text_add(first, token_rows(rest));
        assert(!is_attribute(list[0]));
        let one = seq![chunk];
        assert(one.drop_last() =~= Seq::empty());
        assert(concat(one.drop_last()) =~= Seq::empty());
        assert(concat(one) =~= chunk);
        assert(first.drop_last() =~= Seq::empty());
        assert(state_text(first.drop_last()) =~= Seq::empty());
        assert(first.last() == one);
        assert(state_text(first) =~= chunk);
        assert(s.skip(i) =~= chunk + s.skip(end));
    }
}

// ---------------------------------------------------------------------------
// The opening line of an effect
// ---------------------------------------------------------------------------

/// The preset of a slot, or an empty text.
pub open spec fn preset_of(slot: SlotModel) -> Seq<char> {
    match slot.preset_name {
        Some(p) => p,
        None => ""@,
    }
}

/// The bypass of a slot as it is written.
pub open spec fn bypass_of(slot: SlotModel) -> Seq<char> {
    if slot.bypass {
        "1"@
    } else {
        "0"@
    }
}

/// The tokens of the opening line of an effect, those of the identifier last.
pub open spec fn header_tokens(slot: SlotModel, id: Seq<(Seq<char>, FieldModel)>) -> Seq<Seq<char>> {
    seq![
        block_tag(text_or(id, "format"@, "VST2"@)),
        display_name(id),
        Seq::empty(),
        bypass_of(slot),
        preset_of(slot),
    ] + tokens_from(uid_field(id), 0)
}

/// The opening line of an effect without its indentation and its line feed.
pub open spec fn header_core(slot: SlotModel, id: Seq<(Seq<char>, FieldModel)>) -> Seq<char> {
    let uid = uid_field(id);
    block_tag(text_or(id, "format"@, "VST2"@)) + (seq![' '] + (seq!['"'] + display_name(id) + seq!['"']
        + (seq![' '] + (seq!['"'] + Seq::<char>::empty() + seq!['"'] + (seq![' '] + (bypass_of(slot)
        + (seq![' '] + (seq!['"'] + preset_of(slot) + seq!['"'] + (if uid.len() == 0 {
        Seq::empty()
    } else {
        seq![' '] + uid
    })))))))))
}

/// The opening line of an effect without its line feed.
pub open spec fn header_line(slot: SlotModel, id: Seq<(Seq<char>, FieldModel)>) -> Seq<char> {
    "  "@ + ((seq!['<'] + header_core(slot, id)) + (if uid_field(id).len() == 0 {
        seq![' ']
    } else {
        Seq::empty()
    }))
}

/// Putting texts together is associative.
proof fn lemma_assoc(a: Seq<char>, b: Seq<char>, c: Seq<char>)
    ensures
        (a + b) + c == a + (b + c),
{
    assert((a + b) + c =~= a + (b + c));
}

/// A quoted text within a line.
proof fn lemma_within_quotes(p: Seq<char>, sp: Seq<char>, q: Seq<char>, s: Seq<char>, t: Seq<char>)
    ensures
        ((p + (sp + q)) + s) + (q + t) == p + (sp + (q + s + q + t)),
{
    assert(((p + (sp + q)) + s) + (q + t) =~= p + (sp + (q + s + q + t)));
}

/// An empty quoted text within a line.
proof fn lemma_empty_quotes(p: Seq<char>, q: Seq<char>, sp: Seq<char>, t: Seq<char>)
    ensures
        (p + (q + sp + q + q + sp)) + t == p + (q + (sp + (q + Seq::<char>::empty() + q + (sp + t)))),
{
    assert((p + (q + sp + q + q + sp)) + t =~= p + (q + (sp + (q + Seq::<char>::empty() + q + (sp
        + t)))));
}

/// The opening line is as it is written.
proof fn lemma_header_line(slot: SlotModel, id: Seq<(Seq<char>, FieldModel)>)
    ensures
        fx_header(slot, id) == header_line(slot, id) + "\n"@,
{
    let sp = seq![' '];
    let q = seq!['"'];
    let none = Seq::<char>::empty();
    let lt = seq!['<'];
    assert("  <"@ =~= "  "@ + lt && " \""@ =~= sp + q && "\" \"\" "@ =~= q + sp + q + q + sp
        && "\" "@ =~= q + sp) by {
        reveal_strlit("  <");
        reveal_strlit("  ");
        reveal_strlit(" \"");
        reveal_strlit("\" \"\" ");
        reveal_strlit("\" ");
    }
    let uid = uid_field(id);
    let tag = block_tag(text_or(id, "format"@, "VST2"@));
    let d = display_name(id);
    let b = bypass_of(slot);
    let p = preset_of(slot);
    let p1 = "  "@ + lt;
    let p2 = p1 + tag;
    let p3 = p2 + (sp + q);
    let p4 = p3 + d;
    let p5 = p4 + (q + sp + q + q + sp);
    let p6 = p5 + b;
    let p7 = p6 + (sp + q);
    let p8 = p7 + p;
    assert(fx_header(slot, id) == p8 + (q + sp) + uid + "\n"@);
    let r5 = if uid.len() == 0 {
        none
    } else {
        sp + uid
    };
    let pad = if uid.len() == 0 {
        sp
    } else {
        none
    };
    let r4 = q + p + q + r5;
    let r3 = b + (sp + r4);
    let r2 = q + none + q + (sp + r3);
    let r1 = q + d + q + (sp + r2);
    let core = header_core(slot, id);
    assert(core == tag + (sp + r1));
    assert(p8 + (q + sp) + uid =~= (p8 + (q + r5)) + pad);
    lemma_within_quotes(p6, sp, q, p, r5);
    lemma_assoc(p5, b, sp + r4);
    lemma_empty_quotes(p4, q, sp, r3);
    lemma_within_quotes(p2, sp, q, d, sp + r2);
    lemma_assoc(p1, tag, sp + r1);
    lemma_assoc("  "@, lt, core);
    lemma_assoc("  "@, lt + core, pad);
}

/// The identity and the preset of an effect can be written as they are: texts in
/// quotes hold no quote, backslash or line feed, and the identifier holds no white
/// space.
pub open spec fn is_writable(slot: SlotModel, id: Seq<(Seq<char>, FieldModel)>) -> bool {
    let uid = uid_field(id);
    &&& is_quotable(display_name(id))
    &&& is_quotable(preset_of(slot))
    &&& is_word(uid)
    &&& slot.opaque_state matches Some(s) ==> is_state(s)
}

/// The tag and the bypass of an effect are words of letters and digits.
proof fn lemma_tag_and_bypass(slot: SlotModel, format: Seq<char>)
    ensures
        ({
            let tag = block_tag(format);
            &&& tag.len() > 0
            &&& is_word(tag)
            &&& tag[0] != '"'
            &&& is_line(tag)
        }),
        ({
            let b = bypass_of(slot);
            &&& b.len() == 1
            &&& is_word(b)
            &&& b[0] != '"'
            &&& b[0] != '\n'
        }),
{
    reveal_strlit("AU");
    reveal_strlit("CLAP");
    reveal_strlit("VST");
    reveal_strlit("1");
    reveal_strlit("0");
}

/// The tokens of the opening line of an effect.
proof fn lemma_header_tokens(slot: SlotModel, id: Seq<(Seq<char>, FieldModel)>)
    requires
        is_writable(slot, id),
    ensures
        header_core(slot, id).len() > 0,
        is_tight(header_core(slot, id)),
        tokens(header_core(slot, id)) == header_tokens(slot, id),
{
    let none = Seq::<char>::empty();
    let uid = uid_field(id);
    let format = text_or(id, "format"@, "VST2"@);
    let tag = block_tag(format);
    let core = header_core(slot, id);
    let r5 = if uid.len() == 0 {
        none
    } else {
        seq![' '] + uid
    };
    let r4 = seq!['"'] + preset_of(slot) + seq!['"'] + r5;
    let r3 = bypass_of(slot) + (seq![' '] + r4);
    let r2 = seq!['"'] + none + seq!['"'] + (seq![' '] + r3);
    let r1 = seq!['"'] + display_name(id) + seq!['"'] + (seq![' '] + r2);
    assert(core == tag + (seq![' '] + r1));
    lemma_tag_and_bypass(slot, format);
    assert(core[0] == tag[0]);
    assert(!is_whitespace(core.last())) by {
        if uid.len() == 0 {
            assert(core.last() == '"');
        } else {
            assert(core.last() == uid.last());
            assert(!is_whitespace(uid[uid.len() - 1]));
        }
    }
    lemma_trim_tight(core);
    law_word_token(tag, seq![' '] + r1);
    law_blank_before_token(' ', r1);
    law_quoted_token(display_name(id), seq![' '] + r2);
    law_blank_before_token(' ', r2);
    law_quoted_token(none, seq![' '] + r3);
    law_blank_before_token(' ', r3);
    law_word_token(bypass_of(slot), seq![' '] + r4);
    law_blank_before_token(' ', r4);
    law_quoted_token(preset_of(slot), r5);
    if uid.len() == 0 {
        assert(r5 =~= uid);
    } else {
        law_blank_before_token(' ', uid);
    }
    assert(tokens_from(r5, 0) == tokens_from(uid, 0));
    assert(tokens(core) =~= header_tokens(slot, id));
}

/// The opening line is one line, and trimmed it is the core behind its bracket.
proof fn lemma_header_trim(slot: SlotModel, id: Seq<(Seq<char>, FieldModel)>)
    requires
        is_writable(slot, id),
    ensures
        trim(header_line(slot, id)) == seq!['<'] + header_core(slot, id),
        is_line(header_line(slot, id)),
{
    reveal_strlit("  ");
    lemma_header_tokens(slot, id);
    let core = header_core(slot, id);
    let inner = seq!['<'] + core;
    let uid = uid_field(id);
    let pad = if uid.len() == 0 {
        seq![' ']
    } else {
        Seq::empty()
    };
    assert(inner[0] == '<');
    assert(inner.last() == core.last());
    lemma_trim("  "@, inner, pad);
    lemma_tag_and_bypass(slot, text_or(id, "format"@, "VST2"@));
    let line = header_line(slot, id);
    assert(is_quotable(display_name(id)));
    assert(is_quotable(preset_of(slot)));
    lemma_core_line(slot, id);
    assert forall|k: int| 0 <= k < line.len() implies #[trigger] line[k] != '\n' by {
        if 3 <= k < 3 + core.len() {
            assert(line[k] == core[k - 3]);
        }
    }
    if uid.len() == 0 {
        assert(line.last() == ' ');
    } else {
        assert(line.last() == core.last());
        assert(!is_whitespace(core.last()));
    }
}

/// The opening line holds no line feed.
proof fn lemma_core_line(slot: SlotModel, id: Seq<(Seq<char>, FieldModel)>)
    requires
        is_writable(slot, id),
    ensures
        forall|k: int|
            0 <= k < header_core(slot, id).len() ==> #[trigger] header_core(slot, id)[k] != '\n',
{
    let none = Seq::<char>::empty();
    let uid = uid_field(id);
    let tag = block_tag(text_or(id, "format"@, "VST2"@));
    lemma_tag_and_bypass(slot, text_or(id, "format"@, "VST2"@));
    let r5 = if uid.len() == 0 {
        none
    } else {
        seq![' '] + uid
    };
    assert(no_feed(uid)) by {
        assert forall|k: int| 0 <= k < uid.len() implies #[trigger] uid[k] != '\n' by {
            assert(!is_whitespace(uid[k]));
        }
    }
    let q = seq!['"'];
    let sp = seq![' '];
    assert(no_feed(q) && no_feed(sp) && no_feed(none));
    lemma_no_feed(sp, uid);
    assert(no_feed(r5));
    assert(no_feed(preset_of(slot)));
    lemma_no_feed(q, preset_of(slot));
    lemma_no_feed(q + preset_of(slot), q);
    let r4 = q + preset_of(slot) + q + r5;
    lemma_no_feed(q + preset_of(slot) + q, r5);
    lemma_no_feed(sp, r4);
    assert(no_feed(bypass_of(slot)));
    let r3 = bypass_of(slot) + (sp + r4);
    lemma_no_feed(bypass_of(slot), sp + r4);
    lemma_no_feed(sp, r3);
    lemma_no_feed(q, none);
    lemma_no_feed(q + none, q);
    let r2 = q + none + q + (sp + r3);
    lemma_no_feed(q + none + q, sp + r3);
    lemma_no_feed(sp, r2);
    assert(no_feed(display_name(id)));
    lemma_no_feed(q, display_name(id));
    lemma_no_feed(q + display_name(id), q);
    let r1 = q + display_name(id) + q + (sp + r2);
    lemma_no_feed(q + display_name(id) + q, sp + r2);
    lemma_no_feed(sp, r1);
    assert(no_feed(tag));
    lemma_no_feed(tag, sp + r1);
    assert(header_core(slot, id) == tag + (sp + r1));
}

/// The text holds no line feed.
spec fn no_feed(s: Seq<char>) -> bool {
    forall|k: int| 0 <= k < s.len() ==> #[trigger] s[k] != '\n'
}

/// Two texts without a line feed.
proof fn lemma_no_feed(a: Seq<char>, b: Seq<char>)
    requires
        no_feed(a),
        no_feed(b),
    ensures
        no_feed(a + b),
{
    let s = a + b;
    assert forall|k: int| 0 <= k < s.len() implies #[trigger] s[k] != '\n' by {
        if k < a.len() {
            assert(s[k] == a[k]);
        } else {
            assert(s[k] == b[k - a.len()]);
        }
    }
}

// ---------------------------------------------------------------------------
// Blocks
// ---------------------------------------------------------------------------

/// The stretches of the state of a slot.
pub open spec fn state_rows(slot: SlotModel) -> Seq<Seq<char>> {
    match slot.opaque_state {
        Some(s) => chunks(s, 0),
        None => Seq::empty(),
    }
}

/// The lines of the block of an effect.
pub open spec fn block_lines(slot: SlotModel, id: Seq<(Seq<char>, FieldModel)>) -> Seq<Seq<char>> {
    seq![header_line(slot, id)] + indented(state_rows(slot)) + seq!["  >"@]
}

/// The lines of the blocks of a chain.
pub open spec fn chain_lines(slots: Seq<SlotModel>, ids: Seq<Seq<(Seq<char>, FieldModel)>>) -> Seq<
    Seq<char>,
>
    decreases slots.len(),
{
    if slots.len() == 0 {
        Seq::empty()
    } else {
        chain_lines(slots.drop_last(), ids) + block_lines(slots.last(), ids[slots.len() - 1])
    }
}

/// The lines before the first effect of a chain.
pub open spec fn head_lines() -> Seq<Seq<char>> {
    seq!["<FXCHAIN"@, "  SHOW 0"@, "  LASTSEL 0"@, "  DOCKED 0"@, "  BYPASS 0 0 0"@]
}

/// The lines of a chain.
pub open spec fn all_lines(slots: Seq<SlotModel>, ids: Seq<Seq<(Seq<char>, FieldModel)>>) -> Seq<
    Seq<char>,
> {
    head_lines() + chain_lines(slots, ids) + seq![">"@]
}

/// The characters of a state are ASCII.
proof fn lemma_state_ascii(s: Seq<char>)
    requires
        is_state(s),
    ensures
        vstd::utf8::is_ascii_chars(s),
{
    assert forall|i: int| 0 <= i < s.len() implies '\0' <= #[trigger] s[i] && s[i] <= '\u{7f}' by {
        assert(is_state_char(s[i]));
    }
}

/// The block of an effect is the text of its lines.
proof fn lemma_block_lines(slot: SlotModel, id: Seq<(Seq<char>, FieldModel)>)
    requires
        is_writable(slot, id),
    ensures
        fx_block(slot, id) == unlines(block_lines(slot, id)),
        forall|k: int|
            #![trigger block_lines(slot, id)[k]]
            0 <= k < block_lines(slot, id).len() ==> is_line(block_lines(slot, id)[k]),
{
    let head = seq![header_line(slot, id)];
    let rows = state_rows(slot);
    let end = seq!["  >"@];
    lemma_header_line(slot, id);
    lemma_header_trim(slot, id);
    lemma_unlines_add(head + indented(rows), end);
    lemma_unlines_add(head, indented(rows));
    lemma_unlines_one(header_line(slot, id));
    lemma_unlines_one("  >"@);
    reveal_strlit("  >");
    reveal_strlit("\n");
    reveal_strlit("  >\n");
    assert("  >\n"@ =~= "  >"@ + "\n"@);
    match slot.opaque_state {
        Some(s) => {
            lemma_state_ascii(s);
            lemma_state_lines(s, 0);
            lemma_chunks(s, 0);
        },
        None => {
            assert(indented(rows) =~= Seq::empty());
            assert(state_section(slot.opaque_state) =~= unlines(indented(rows)));
        },
    }
    assert(fx_block(slot, id) =~= unlines(block_lines(slot, id)));
    let all = block_lines(slot, id);
    assert forall|k: int|
        #![trigger all[k]]
        0 <= k < all.len() implies is_line(all[k]) by {
        if 1 <= k < 1 + rows.len() {
            assert(all[k] == "    "@ + rows[k - 1]);
            lemma_state_word(rows[k - 1]);
        } else if k == 0 {
            assert(all[k] == header_line(slot, id));
        } else {
            assert(all[k] == "  >"@);
        }
    }
}

/// The slots of a chain and their identities can be written as they are.
pub open spec fn all_writable(slots: Seq<SlotModel>, ids: Seq<Seq<(Seq<char>, FieldModel)>>) -> bool {
    &&& slots.len() == ids.len()
    &&& forall|i: int| #![trigger slots[i]] 0 <= i < slots.len() ==> is_writable(slots[i], ids[i])
}

/// The blocks of a chain are the text of their lines.
proof fn lemma_chain_lines(slots: Seq<SlotModel>, ids: Seq<Seq<(Seq<char>, FieldModel)>>)
    requires
        slots.len() <= ids.len(),
        forall|i: int| #![trigger slots[i]] 0 <= i < slots.len() ==> is_writable(slots[i], ids[i]),
    ensures
        fx_blocks(slots, ids) == unlines(chain_lines(slots, ids)),
        forall|k: int|
            #![trigger chain_lines(slots, ids)[k]]
            0 <= k < chain_lines(slots, ids).len() ==> is_line(chain_lines(slots, ids)[k]),
    decreases slots.len(),
{
    if slots.len() > 0 {
        let fewer = slots.drop_last();
        let last = slots.len() - 1;
        assert forall|i: int| #![trigger fewer[i]] 0 <= i < fewer.len() implies is_writable(
            fewer[i],
            ids[i],
        ) by {
            assert(fewer[i] == slots[i]);
        }
        lemma_chain_lines(fewer, ids);
        assert(is_writable(slots[last], ids[last]));
        lemma_block_lines(slots[last], ids[last]);
        let a = chain_lines(fewer, ids);
        let b = block_lines(slots[last], ids[last]);
        lemma_unlines_add(a, b);
        let all = a + b;
        assert forall|k: int|
            #![trigger all[k]]
            0 <= k < all.len() implies is_line(all[k]) by {
            if k < a.len() {
                assert(all[k] == a[k]);
            } else {
                assert(all[k] == b[k - a.len()]);
            }
        }
    }
}

/// The text of a chain comes apart into its lines.
proof fn lemma_all_lines(slots: Seq<SlotModel>, ids: Seq<Seq<(Seq<char>, FieldModel)>>)
    requires
        all_writable(slots, ids),
    ensures
        rfxchain(slots, ids) == unlines(all_lines(slots, ids)),
        forall|k: int|
            #![trigger all_lines(slots, ids)[k]]
            0 <= k < all_lines(slots, ids).len() ==> is_line(all_lines(slots, ids)[k]),
        lines(rfxchain(slots, ids)) == all_lines(slots, ids),
{
    reveal_strlit("<FXCHAIN");
    reveal_strlit("  SHOW 0");
    reveal_strlit("  LASTSEL 0");
    reveal_strlit("  DOCKED 0");
    reveal_strlit("  BYPASS 0 0 0");
    reveal_strlit("<FXCHAIN\n");
    reveal_strlit("  SHOW 0\n");
    reveal_strlit("  LASTSEL 0\n");
    reveal_strlit("  DOCKED 0\n");
    reveal_strlit("  BYPASS 0 0 0\n");
    reveal_strlit(">");
    reveal_strlit(">\n");
    reveal_strlit("\n");
    lemma_chain_lines(slots, ids);
    let head = head_lines();
    assert(unlines(head) == chain_header()) by {
        assert("<FXCHAIN\n"@ =~= "<FXCHAIN"@ + "\n"@);
        assert("  SHOW 0\n"@ =~= "  SHOW 0"@ + "\n"@);
        assert("  LASTSEL 0\n"@ =~= "  LASTSEL 0"@ + "\n"@);
        assert("  DOCKED 0\n"@ =~= "  DOCKED 0"@ + "\n"@);
        assert("  BYPASS 0 0 0\n"@ =~= "  BYPASS 0 0 0"@ + "\n"@);
        let h1 = seq!["<FXCHAIN"@];
        let h2 = h1.push("  SHOW 0"@);
        let h3 = h2.push("  LASTSEL 0"@);
        let h4 = h3.push("  DOCKED 0"@);
        let h5 = h4.push("  BYPASS 0 0 0"@);
        assert(h5 =~= head);
        assert(h5.drop_last() =~= h4);
        assert(h4.drop_last() =~= h3);
        assert(h3.drop_last() =~= h2);
        assert(h2.drop_last() =~= h1);
        lemma_unlines_one("<FXCHAIN"@);
        assert(unlines(h2) =~= "<FXCHAIN\n"@ + "  SHOW 0\n"@);
        assert(unlines(h3) =~= "<FXCHAIN\n"@ + "  SHOW 0\n"@ + "  LASTSEL 0\n"@);
        assert(unlines(h4) =~= "<FXCHAIN\n"@ + "  SHOW 0\n"@ + "  LASTSEL 0\n"@
            + "  DOCKED 0\n"@);
        assert(unlines(h5) =~= chain_header());
    }
    let body = chain_lines(slots, ids);
    lemma_unlines_add(head + body, seq![">"@]);
    lemma_unlines_add(head, body);
    lemma_unlines_one(">"@);
    assert(">\n"@ =~= ">"@ + "\n"@);
    let all = all_lines(slots, ids);
    assert(rfxchain(slots, ids) =~= unlines(all));
    assert forall|k: int| 0 <= k < all.len() implies is_line(#[trigger] all[k]) by {
        if 5 <= k < 5 + body.len() {
            assert(all[k] == body[k - 5]);
        } else if k < 5 {
            assert(all[k] == head[k]);
        } else {
            assert(all[k] == ">"@);
        }
    }
    lemma_lines_unlines(all);
}

// ---------------------------------------------------------------------------
// Reading the blocks
// ---------------------------------------------------------------------------

/// The block of an effect as it is read.
pub open spec fn node_of(slot: SlotModel, id: Seq<(Seq<char>, FieldModel)>) -> NodeModel {
    NodeModel {
        tag: header_tokens(slot, id)[0],
        args: header_tokens(slot, id).skip(1),
        lines: token_rows(state_rows(slot)),
        children: Seq::empty(),
    }
}

/// The inside of a block that holds the lines of a state from line `p` on.
proof fn lemma_state_body(raw: Seq<Seq<char>>, p: int, list: Seq<Seq<char>>)
    requires
        0 <= p,
        p + list.len() < raw.len(),
        forall|k: int|
            #![trigger list[k]]
            0 <= k < list.len() ==> is_state_word(list[k]) && raw[p + k] == "    "@ + list[k],
        raw[p + list.len()] == "  >"@,
    ensures
        read_body(raw, p) == (Body {
            lines: token_rows(list),
            children: Seq::empty(),
            next: p + list.len() + 1,
        }),
    decreases list.len(),
{
    if list.len() == 0 {
        reveal_strlit("  >");
        reveal_strlit("  ");
        let close = seq!['>'];
        lemma_trim("  "@, close, Seq::empty());
        assert("  "@ + (close + Seq::<char>::empty()) =~= "  >"@);
        assert(raw[p] == "  >"@);
        assert(token_rows(list) =~= Seq::empty());
        assert(read_body(raw, p).lines =~= Seq::empty());
    } else {
        let w = list[0];
        lemma_state_word(w);
        assert(raw[p + 0] == "    "@ + w);
        assert(is_state_char(w[0]));
        let rest = list.skip(1);
        assert forall|k: int|
            #![trigger rest[k]]
            0 <= k < rest.len() implies is_state_word(rest[k]) && raw[p + 1 + k] == "    "@
            + rest[k] by {
            assert(rest[k] == list[k + 1]);
        }
        lemma_state_body(raw, p + 1, rest);
        assert(token_rows(list) =~= seq![seq![w]] + token_rows(rest));
        assert(trim(raw[p]) == w);
        assert(w != seq!['>']) by {
            assert(w[0] != '>');
        }
        assert(read_body(raw, p) =~= (Body {
            lines: token_rows(list),
            children: Seq::empty(),
            next: p + list.len() + 1,
        }));
    }
}

/// The block of an effect that begins at line `p` is read as its node.
proof fn lemma_block_body(
    raw: Seq<Seq<char>>,
    p: int,
    slot: SlotModel,
    id: Seq<(Seq<char>, FieldModel)>,
)
    requires
        is_writable(slot, id),
        0 <= p,
        p + block_lines(slot, id).len() <= raw.len(),
        forall|k: int|
            #![trigger block_lines(slot, id)[k]]
            0 <= k < block_lines(slot, id).len() ==> raw[p + k] == block_lines(slot, id)[k],
    ensures
        ({
            let rest = read_body(raw, p + block_lines(slot, id).len());
            read_body(raw, p) == (Body {
                lines: rest.lines,
                children: seq![node_of(slot, id)] + rest.children,
                next: rest.next,
            })
        }),
{
    let all = block_lines(slot, id);
    let list = state_rows(slot);
    assert(all.len() == list.len() + 2);
    assert(all[0] == header_line(slot, id));
    assert(raw[p + 0] == all[0]);
    lemma_header_trim(slot, id);
    lemma_header_tokens(slot, id);
    let core = header_core(slot, id);
    let line = trim(raw[p]);
    assert(line == seq!['<'] + core);
    assert(line[0] == '<');
    assert(line.skip(1) =~= core);
    assert(line != seq!['>']);
    match slot.opaque_state {
        Some(s) => {
            lemma_chunks(s, 0);
        },
        None => {},
    }
    assert forall|k: int|
        #![trigger list[k]]
        0 <= k < list.len() implies is_state_word(list[k]) && raw[p + 1 + k] == "    "@ + list[k] by {
        assert(all[k + 1] == indented(list)[k]);
        assert(raw[p + (k + 1)] == all[k + 1]);
    }
    let end: int = list.len() + 1int;
    assert(all[end] == "  >"@);
    assert(raw[p + end] == all[end]);
    lemma_state_body(raw, p + 1, list);
    assert(header_tokens(slot, id).len() > 0);
}

/// The lines of the first effects of a chain come first.
proof fn lemma_chain_prefix(slots: Seq<SlotModel>, ids: Seq<Seq<(Seq<char>, FieldModel)>>, i: int)
    requires
        0 <= i <= slots.len(),
    ensures
        chain_lines(slots.take(i), ids).is_prefix_of(chain_lines(slots, ids)),
    decreases slots.len(),
{
    if i == slots.len() {
        assert(slots.take(i) =~= slots);
    } else {
        let fewer = slots.drop_last();
        lemma_chain_prefix(fewer, ids, i);
        assert(fewer.take(i) =~= slots.take(i));
        let a = chain_lines(slots.take(i), ids);
        let b = chain_lines(fewer, ids);
        let c = chain_lines(slots, ids);
        assert(c.subrange(0, a.len() as int) =~= b.subrange(0, a.len() as int));
    }
}

/// The line at which the block of the effect at index `i` begins.
spec fn block_start(slots: Seq<SlotModel>, ids: Seq<Seq<(Seq<char>, FieldModel)>>, i: int) -> int {
    5int + chain_lines(slots.take(i), ids).len()
}

/// The lines of `list` stand in `raw` from line `at` on.
pub open spec fn stands_at(raw: Seq<Seq<char>>, at: int, list: Seq<Seq<char>>) -> bool {
    &&& 0 <= at
    &&& at + list.len() <= raw.len()
    &&& forall|k: int| #![trigger list[k]] 0 <= k < list.len() ==> raw[at + k] == list[k]
}

/// From the block of the effect at index `i` on, the effects are read one by one, up to
/// the end of the chain.
#[verifier::rlimit(40)]
proof fn lemma_chain_body(
    raw: Seq<Seq<char>>,
    at: int,
    slots: Seq<SlotModel>,
    ids: Seq<Seq<(Seq<char>, FieldModel)>>,
    i: int,
)
    requires
        all_writable(slots, ids),
        stands_at(raw, at, all_lines(slots, ids)),
        0 <= i <= slots.len(),
    ensures
        read_body(raw, at + block_start(slots, ids, i)).children == Seq::new(
            (slots.len() - i) as nat,
            |k: int| node_of(slots[i + k], ids[i + k]),
        ),
        read_body(raw, at + block_start(slots, ids, i)).next == at + all_lines(slots, ids).len(),
    decreases slots.len() - i,
{
    let all = all_lines(slots, ids);
    let p = block_start(slots, ids, i);
    let body = chain_lines(slots, ids);
    lemma_chain_prefix(slots, ids, i);
    if i == slots.len() {
        assert(slots.take(i) =~= slots);
        reveal_strlit(">");
        assert(all[p] == ">"@);
        assert(">"@ =~= seq!['>']);
        lemma_trim_tight(">"@);
        assert(read_body(raw, at + p).children =~= Seq::new(
            (slots.len() - i) as nat,
            |k: int| node_of(slots[i + k], ids[i + k]),
        ));
    } else {
        let block = block_lines(slots[i], ids[i]);
        let before = chain_lines(slots.take(i), ids);
        let with = chain_lines(slots.take(i + 1), ids);
        assert(slots.take(i + 1).drop_last() =~= slots.take(i));
        assert(slots.take(i + 1).last() == slots[i]);
        assert(with == before + block);
        lemma_chain_prefix(slots, ids, i + 1);
        assert forall|k: int| #![trigger block[k]] 0 <= k < block.len() implies raw[at + p + k]
            == block[k] by {
            assert(with[before.len() + k] == block[k]);
            assert(body.subrange(0, with.len() as int)[before.len() + k] == with[before.len() + k]);
            assert(all[5 + (before.len() + k)] == body[before.len() + k]);
        }
        assert(is_writable(slots[i], ids[i]));
        assert(with.len() <= body.len());
        lemma_block_body(raw, at + p, slots[i], ids[i]);
        lemma_chain_body(raw, at, slots, ids, i + 1);
        assert(block_start(slots, ids, i + 1) == p + block.len());
        let rest = Seq::new(
            (slots.len() - (i + 1)) as nat,
            |k: int| node_of(slots[i + 1 + k], ids[i + 1 + k]),
        );
        assert(seq![node_of(slots[i], ids[i])] + rest =~= Seq::new(
            (slots.len() - i) as nat,
            |k: int| node_of(slots[i + k], ids[i + k]),
        ));
    }
}

/// A line of a block that is no block and no end adds no block.
proof fn lemma_plain_line(raw: Seq<Seq<char>>, p: int, text: Seq<char>)
    requires
        0 <= p < raw.len(),
        text.len() > 0,
        is_tight(text),
        text[0] != '<',
        text[0] != '>',
        raw[p] == "  "@ + text,
    ensures
        read_body(raw, p).children == read_body(raw, p + 1).children,
        read_body(raw, p).next == read_body(raw, p + 1).next,
{
    reveal_strlit("  ");
    lemma_trim("  "@, text, Seq::empty());
    assert("  "@ + (text + Seq::<char>::empty()) =~= "  "@ + text);
    assert(text != seq!['>']);
}

/// The lines before the first effect add no block.
proof fn lemma_head_body(raw: Seq<Seq<char>>, at: int)
    requires
        stands_at(raw, at, head_lines()),
    ensures
        read_body(raw, at + 1).children == read_body(raw, at + 5).children,
        read_body(raw, at + 1).next == read_body(raw, at + 5).next,
{
    reveal_strlit("  ");
    reveal_strlit("SHOW 0");
    reveal_strlit("LASTSEL 0");
    reveal_strlit("DOCKED 0");
    reveal_strlit("BYPASS 0 0 0");
    reveal_strlit("  SHOW 0");
    reveal_strlit("  LASTSEL 0");
    reveal_strlit("  DOCKED 0");
    reveal_strlit("  BYPASS 0 0 0");
    assert("  SHOW 0"@ =~= "  "@ + "SHOW 0"@);
    assert("  LASTSEL 0"@ =~= "  "@ + "LASTSEL 0"@);
    assert("  DOCKED 0"@ =~= "  "@ + "DOCKED 0"@);
    assert("  BYPASS 0 0 0"@ =~= "  "@ + "BYPASS 0 0 0"@);
    let head = head_lines();
    assert(head[1] == "  SHOW 0"@ && head[2] == "  LASTSEL 0"@ && head[3] == "  DOCKED 0"@
        && head[4] == "  BYPASS 0 0 0"@);
    lemma_plain_line(raw, at + 1, "SHOW 0"@);
    lemma_plain_line(raw, at + 2, "LASTSEL 0"@);
    lemma_plain_line(raw, at + 3, "DOCKED 0"@);
    lemma_plain_line(raw, at + 4, "BYPASS 0 0 0"@);
}

// ---------------------------------------------------------------------------
// What an effect is read as
// ---------------------------------------------------------------------------

/// The format that a written effect is read as.
pub open spec fn format_read(format: Seq<char>) -> PluginFormat {
    if format == "VST3"@ {
        PluginFormat::Vst3
    } else if format == "AU"@ {
        PluginFormat::Au
    } else if format == "CLAP"@ {
        PluginFormat::Clap
    } else {
        PluginFormat::Vst2
    }
}

/// The number and the GUID that an identifier is read as: those of its first token.
pub open spec fn identifier_read(uid: Seq<char>) -> (Option<Seq<char>>, Option<Seq<char>>) {
    let toks = tokens_from(uid, 0);
    if toks.len() > 0 {
        uid_parts(toks[0])
    } else {
        (None, None)
    }
}

/// The effect that a slot and its identity describe. Empty texts are none, and a file
/// name is not kept. The number and the GUID are what is read of the two as they are
/// written, one behind the other.
pub open spec fn effect_of(slot: SlotModel, id: Seq<(Seq<char>, FieldModel)>) -> FxModel {
    let identifier = identifier_read(uid_field(id));
    FxModel {
        name: text_or(id, "name"@, "Unknown"@),
        vendor: non_empty(text_or(id, "vendor"@, ""@)),
        format: format_read(text_or(id, "format"@, "VST2"@)),
        filename: Seq::empty(),
        is_bypassed: slot.bypass,
        preset_name: non_empty(preset_of(slot)),
        vst_uid: identifier.0,
        vst3_guid: identifier.1,
        opaque_state: match slot.opaque_state {
            Some(s) => non_empty(s),
            None => None,
        },
    }
}

/// The character does not stand in the text.
pub open spec fn lacks(s: Seq<char>, c: char) -> bool {
    forall|i: int| 0 <= i < s.len() ==> #[trigger] s[i] != c
}

/// The texts of an effect leave no doubt where they stand between the marks of the
/// format: the name and the vendor of a display name `Name (Vendor)`, an identifier of
/// one word, and the lines of a state.
pub open spec fn is_plain(slot: SlotModel, id: Seq<(Seq<char>, FieldModel)>) -> bool {
    let name = text_or(id, "name"@, "Unknown"@);
    let vendor = text_or(id, "vendor"@, ""@);
    &&& is_quotable(name)
    &&& is_quotable(vendor)
    &&& is_quotable(preset_of(slot))
    &&& if vendor.len() == 0 {
        lacks(name, '(')
    } else {
        is_tight(name) && is_tight(vendor) && lacks(vendor, '(') && vendor.last() != ')'
    }
    &&& is_word(uid_field(id))
    &&& slot.opaque_state matches Some(s) ==> is_state(s)
}

/// The number of an identifier holds no brace and does not begin with a quote, and the
/// GUID of a VST3 plugin stands in braces. Both are words.
pub open spec fn is_plain_identifier(id: Seq<(Seq<char>, FieldModel)>) -> bool {
    let num = text_or(id, "vst_uid"@, ""@);
    let guid = text_or(id, "vst3_guid"@, ""@);
    &&& is_word(num)
    &&& lacks(num, '{')
    &&& num.len() > 0 ==> num[0] != '"'
    &&& text_or(id, "format"@, "VST2"@) == "VST3"@ ==> is_word(guid) && (guid.len() == 0 || (guid[0]
        == '{' && vstd::utf8::encode_utf8(guid).len() > 2))
}

/// The prefix of a display name can stand between quotes.
proof fn lemma_prefix_quotable(format: Seq<char>)
    ensures
        is_quotable(format_prefix(format)),
{
    reveal_strlit("VST3: ");
    reveal_strlit("AU: ");
    reveal_strlit("CLAP: ");
    reveal_strlit("VST: ");
}

/// Two texts that can stand between quotes can do so together.
proof fn lemma_quotable_add(a: Seq<char>, b: Seq<char>)
    requires
        is_quotable(a),
        is_quotable(b),
    ensures
        is_quotable(a + b),
{
    let s = a + b;
    assert forall|i: int| 0 <= i < s.len() implies #[trigger] s[i] != '"' && s[i] != '\\' && s[i]
        != '\n' by {
        if i < a.len() {
            assert(s[i] == a[i]);
        } else {
            assert(s[i] == b[i - a.len()]);
        }
    }
}

/// A plain effect can be written as it is.
proof fn lemma_plain_writable(slot: SlotModel, id: Seq<(Seq<char>, FieldModel)>)
    requires
        is_plain(slot, id),
    ensures
        is_writable(slot, id),
{
    let format = text_or(id, "format"@, "VST2"@);
    let name = text_or(id, "name"@, "Unknown"@);
    let vendor = text_or(id, "vendor"@, ""@);
    let prefix = format_prefix(format);
    lemma_prefix_quotable(format);
    lemma_quotable_add(prefix, name);
    reveal_strlit(" (");
    reveal_strlit(")");
    if vendor.len() > 0 {
        lemma_quotable_add(prefix + name, " ("@);
        lemma_quotable_add(prefix + name + " ("@, vendor);
        lemma_quotable_add(prefix + name + " ("@ + vendor, ")"@);
    }
}

/// A display name shows its format, and what stands behind the prefix.
proof fn lemma_format_read(format: Seq<char>, rest: Seq<char>, tag: Seq<char>)
    ensures
        format_and_rest(format_prefix(format) + rest, tag) == (format_read(format), rest),
{
    reveal_strlit("VST3: ");
    reveal_strlit("VST: ");
    reveal_strlit("AU: ");
    reveal_strlit("CLAP: ");
    let prefix = format_prefix(format);
    let all = prefix + rest;
    assert(all.subrange(0, prefix.len() as int) =~= prefix);
    assert(all.skip(prefix.len() as int) =~= rest);
    if format == "VST3"@ {
    } else if format == "AU"@ {
        assert(all[0] == 'A');
        assert(all.len() >= 6 ==> all.subrange(0, 6)[0] == 'A');
        assert(all.len() >= 5 ==> all.subrange(0, 5)[0] == 'A');
    } else if format == "CLAP"@ {
        assert(all[0] == 'C');
        assert(all.subrange(0, 6)[0] == 'C');
        assert(all.subrange(0, 5)[0] == 'C');
        assert(all.subrange(0, 4)[0] == 'C');
    } else {
        assert(all[3] == ':');
        assert(all.len() >= 6 ==> all.subrange(0, 6)[3] == ':');
    }
}

/// The last place of a character is before the texts that lack it.
proof fn lemma_rfind(s: Seq<char>, c: char, at: int, n: int)
    requires
        0 <= at < n <= s.len(),
        s[at] == c,
        forall|i: int| at < i < n ==> #[trigger] s[i] != c,
    ensures
        rfind_before(s, c, n) == Some(at),
    decreases n,
{
    if n - 1 > at {
        lemma_rfind(s, c, at, n - 1);
    }
}

/// A character that a text lacks has no last place in it.
proof fn lemma_rfind_none(s: Seq<char>, c: char, n: int)
    requires
        0 <= n <= s.len(),
        lacks(s, c),
    ensures
        rfind_before(s, c, n) is None,
    decreases n,
{
    if n > 0 {
        lemma_rfind_none(s, c, n - 1);
    }
}

/// The name and the vendor of a display name come apart again.
proof fn lemma_name_and_vendor(name: Seq<char>, vendor: Seq<char>)
    requires
        vendor.len() == 0 ==> lacks(name, '('),
        vendor.len() > 0 ==> is_tight(name) && is_tight(vendor) && lacks(vendor, '(')
            && vendor.last() != ')',
    ensures
        name_and_vendor(
            if vendor.len() == 0 {
                name
            } else {
                name + " ("@ + vendor + ")"@
            },
        ) == (name, non_empty(vendor)),
{
    reveal_strlit(" (");
    reveal_strlit(")");
    if vendor.len() == 0 {
        lemma_rfind_none(name, '(', name.len() as int);
    } else {
        let rest = name + " ("@ + vendor + ")"@;
        let at = name.len() + 1;
        assert(rest[at as int] == '(');
        assert forall|i: int| at < i < rest.len() implies #[trigger] rest[i] != '(' by {
            if i < at + 1 + vendor.len() {
                assert(rest[i] == vendor[i - at - 1]);
            }
        }
        lemma_rfind(rest, '(', at as int, rest.len() as int);
        assert(rest.take(at as int) =~= name + seq![' ']);
        lemma_trim_space(name);
        let behind = rest.skip(at + 1int);
        assert(behind =~= vendor + seq![')']);
        assert(behind.last() == ')');
        assert(behind.drop_last() =~= vendor);
        assert(trim_end_char(vendor, ')') == vendor);
        assert(trim_end_char(behind, ')') == vendor);
        lemma_trim_tight(vendor);
    }
}

/// The number and the GUID of an identifier come apart again.
proof fn lemma_uid_parts(num: Seq<char>, guid: Seq<char>)
    requires
        lacks(num, '{'),
        guid.len() == 0 || (guid[0] == '{' && vstd::utf8::encode_utf8(guid).len() > 2),
    ensures
        uid_parts(num + guid) == (non_empty(num), non_empty(guid)),
{
    let uid = num + guid;
    assert forall|i: int| 0 <= i < num.len() implies uid[i] != '{' by {
        assert(uid[i] == num[i]);
    }
    if guid.len() == 0 {
        assert(uid =~= num);
        lemma_find_from(uid, '{', 0);
    } else {
        lemma_find_from_is(uid, '{', 0, num.len() as int);
        assert(uid.skip(num.len() as int) =~= guid);
        assert(uid.take(num.len() as int) =~= num);
    }
}

/// The block of a plain effect is read as the effect.
proof fn lemma_effect_read(slot: SlotModel, id: Seq<(Seq<char>, FieldModel)>)
    requires
        is_plain(slot, id),
    ensures
        fx_of(node_of(slot, id)) == Some(effect_of(slot, id)),
        is_fx_tag(node_of(slot, id).tag),
{
    let node = node_of(slot, id);
    let format = text_or(id, "format"@, "VST2"@);
    let name = text_or(id, "name"@, "Unknown"@);
    let vendor = text_or(id, "vendor"@, ""@);
    let toks = tokens_from(uid_field(id), 0);
    let rest = if vendor.len() == 0 {
        name
    } else {
        name + " ("@ + vendor + ")"@
    };
    let tag = block_tag(format);
    assert(display_name(id) =~= format_prefix(format) + rest);
    lemma_format_read(format, rest, tag);
    lemma_name_and_vendor(name, vendor);
    match slot.opaque_state {
        Some(s) => {
            lemma_state_text(s, 0);
            assert(s.skip(0) =~= s);
        },
        None => {
            assert(token_rows(state_rows(slot)) =~= Seq::empty());
        },
    }
    assert(node.tag == tag);
    assert(node.args[0] == display_name(id));
    assert(node.args[1] =~= Seq::empty());
    assert(node.args[2] == bypass_of(slot));
    assert(node.args[3] == preset_of(slot));
    assert(node.args.len() == 4 + toks.len());
    assert(toks.len() > 0 ==> node.args[4] == toks[0]);
    reveal_strlit("0");
    reveal_strlit("1");
    assert("0"@ =~= seq!['0']);
    assert("1"@[0] == '1');
    assert(fx_of(node)->0 =~= effect_of(slot, id));
    reveal_strlit("VST");
    reveal_strlit("AU");
    reveal_strlit("CLAP");
    assert(upper("VST"@) =~= "VST"@);
    assert(upper("AU"@) =~= "AU"@);
    assert(upper("CLAP"@) =~= "CLAP"@);
}

/// The blocks of plain effects are read as the effects.
proof fn lemma_effects_read(slots: Seq<SlotModel>, ids: Seq<Seq<(Seq<char>, FieldModel)>>, n: int)
    requires
        0 <= n <= slots.len(),
        slots.len() == ids.len(),
        forall|i: int| #![trigger slots[i]] 0 <= i < slots.len() ==> is_plain(slots[i], ids[i]),
    ensures
        fx_chain_of(Seq::new(n as nat, |k: int| node_of(slots[k], ids[k]))) == Seq::new(
            n as nat,
            |k: int| effect_of(slots[k], ids[k]),
        ),
    decreases n,
{
    let nodes = Seq::new(n as nat, |k: int| node_of(slots[k], ids[k]));
    let effects = Seq::new(n as nat, |k: int| effect_of(slots[k], ids[k]));
    if n == 0 {
        assert(effects =~= Seq::empty());
    } else {
        lemma_effects_read(slots, ids, n - 1);
        let fewer = Seq::new((n - 1) as nat, |k: int| node_of(slots[k], ids[k]));
        assert(nodes.drop_last() =~= fewer);
        assert(is_plain(slots[n - 1], ids[n - 1]));
        lemma_effect_read(slots[n - 1], ids[n - 1]);
        assert(nodes.last() == node_of(slots[n - 1], ids[n - 1]));
        assert(effects =~= Seq::new((n - 1) as nat, |k: int| effect_of(slots[k], ids[k])).push(
            effect_of(slots[n - 1], ids[n - 1]),
        ));
    }
}

// ---------------------------------------------------------------------------
// The laws
// ---------------------------------------------------------------------------

/// The effects of the slots of a chain.
pub open spec fn effects_of(slots: Seq<SlotModel>, ids: Seq<Seq<(Seq<char>, FieldModel)>>) -> Seq<
    FxModel,
> {
    Seq::new(slots.len(), |k: int| effect_of(slots[k], ids[k]))
}

/// Every slot is plain.
pub open spec fn all_plain(slots: Seq<SlotModel>, ids: Seq<Seq<(Seq<char>, FieldModel)>>) -> bool {
    &&& slots.len() == ids.len()
    &&& forall|i: int| #![trigger slots[i]] 0 <= i < slots.len() ==> is_plain(slots[i], ids[i])
}

/// Plain slots can be written.
proof fn lemma_all_plain(slots: Seq<SlotModel>, ids: Seq<Seq<(Seq<char>, FieldModel)>>)
    requires
        all_plain(slots, ids),
    ensures
        all_writable(slots, ids),
{
    assert forall|i: int| #![trigger slots[i]] 0 <= i < slots.len() implies is_writable(
        slots[i],
        ids[i],
    ) by {
        lemma_plain_writable(slots[i], ids[i]);
    }
}

/// A chain whose lines stand among others is read as its effects, up to its end.
proof fn lemma_chain_read(
    raw: Seq<Seq<char>>,
    at: int,
    slots: Seq<SlotModel>,
    ids: Seq<Seq<(Seq<char>, FieldModel)>>,
)
    requires
        all_plain(slots, ids),
        stands_at(raw, at, all_lines(slots, ids)),
    ensures
        raw[at] == "<FXCHAIN"@,
        read_body(raw, at + 1).next == at + all_lines(slots, ids).len(),
        fx_chain_of(read_body(raw, at + 1).children) == effects_of(slots, ids),
{
    lemma_all_plain(slots, ids);
    let all = all_lines(slots, ids);
    let head = head_lines();
    assert forall|k: int| #![trigger head[k]] 0 <= k < head.len() implies raw[at + k] == head[k] by {
        assert(all[k] == head[k]);
    }
    assert(head[0] == "<FXCHAIN"@);
    assert(raw[at + 0] == head[0]);
    lemma_head_body(raw, at);
    assert(slots.take(0) =~= Seq::empty());
    assert(block_start(slots, ids, 0) == 5);
    lemma_chain_body(raw, at, slots, ids, 0);
    assert(Seq::new((slots.len() - 0) as nat, |k: int| node_of(slots[0 + k], ids[0 + k]))
        =~= Seq::new(slots.len(), |k: int| node_of(slots[k], ids[k])));
    lemma_effects_read(slots, ids, slots.len() as int);
}

/// A written chain reads back. Its text is one block, which opens with the line
/// `<FXCHAIN` and ends with the text. Read as the FX chain of a project is read, the
/// block gives the effect of every slot, in order.
pub proof fn law_rfxchain_reads_back(
    slots: Seq<SlotModel>,
    ids: Seq<Seq<(Seq<char>, FieldModel)>>,
)
    requires
        all_plain(slots, ids),
    ensures
        ({
            let raw = lines(rfxchain(slots, ids));
            let body = read_body(raw, 1);
            &&& raw[0] == "<FXCHAIN"@
            &&& body.next == raw.len()
            &&& fx_chain_of(body.children) == effects_of(slots, ids)
        }),
{
    lemma_all_plain(slots, ids);
    lemma_all_lines(slots, ids);
    lemma_chain_read(all_lines(slots, ids), 0, slots, ids);
}

/// A word of the opening line of a block: no quotes are needed round it.
pub open spec fn is_bare(s: Seq<char>) -> bool {
    s.len() > 0 && is_word(s) && s[0] != '"'
}

/// A bare word is one token.
proof fn lemma_bare_token(word: Seq<char>)
    requires
        is_bare(word),
    ensures
        tokens_from(word, 0) == seq![word],
{
    let none = Seq::<char>::empty();
    law_word_token(word, none);
    assert(word + none =~= word);
    assert(tokens_from(none, 0) =~= Seq::<Seq<char>>::empty());
    assert(tokens_from(word, 0) =~= seq![word]);
}

/// A number without a brace and a GUID in braces, written one behind the other, come
/// apart again. A GUID is written for a VST3 plugin only.
pub proof fn law_identifier_reads_back(id: Seq<(Seq<char>, FieldModel)>)
    requires
        is_plain_identifier(id),
    ensures
        is_word(uid_field(id)),
        identifier_read(uid_field(id)) == (
            non_empty(text_or(id, "vst_uid"@, ""@)),
            if text_or(id, "format"@, "VST2"@) == "VST3"@ {
                non_empty(text_or(id, "vst3_guid"@, ""@))
            } else {
                None
            },
        ),
{
    let num = text_or(id, "vst_uid"@, ""@);
    let is_vst3 = text_or(id, "format"@, "VST2"@) == "VST3"@;
    let guid = if is_vst3 {
        text_or(id, "vst3_guid"@, ""@)
    } else {
        Seq::empty()
    };
    let uid = uid_field(id);
    assert(uid =~= num + guid);
    lemma_uid_parts(num, guid);
    assert forall|i: int| 0 <= i < uid.len() implies !is_whitespace(#[trigger] uid[i]) by {
        if i < num.len() {
            assert(uid[i] == num[i]);
        } else {
            assert(uid[i] == guid[i - num.len()]);
        }
    }
    if uid.len() > 0 {
        if num.len() > 0 {
            assert(uid[0] == num[0]);
        } else {
            assert(uid[0] == guid[0]);
        }
        lemma_bare_token(uid);
    } else {
        assert(tokens_from(uid, 0) =~= Seq::empty());
        assert(num.len() == 0 && guid.len() == 0);
    }
}

// ---------------------------------------------------------------------------
// A chain in a project
// ---------------------------------------------------------------------------

/// The words, each with a space before it.
pub open spec fn spaced_words(words: Seq<Seq<char>>) -> Seq<char>
    decreases words.len(),
{
    if words.len() == 0 {
        Seq::empty()
    } else {
        spaced_words(words.drop_last()) + seq![' '] + words.last()
    }
}

/// All words of the list are bare.
pub open spec fn all_bare(words: Seq<Seq<char>>) -> bool {
    forall|i: int| 0 <= i < words.len() ==> is_bare(#[trigger] words[i])
}

/// The opening line of a block with the given tag and words.
pub open spec fn opening_line(tag: Seq<char>, words: Seq<Seq<char>>) -> Seq<char> {
    seq!['<'] + tag + spaced_words(words)
}

/// The text of a project with one track that holds the given FX chain: the opening line
/// of the project, that of the track, the chain, and the ends of the two.
pub open spec fn project_text(project: Seq<char>, track: Seq<char>, chain: Seq<char>) -> Seq<char> {
    project + "\n"@ + track + "\n"@ + chain + ">\n"@ + ">\n"@
}

/// The tokens of the line, where it opens a block.
pub open spec fn opened(line: Seq<char>) -> Option<Seq<Seq<char>>> {
    let t = trim(line);
    if t.len() > 0 && t[0] == '<' && tokens(t.skip(1)).len() > 0 {
        Some(tokens(t.skip(1)))
    } else {
        None
    }
}

/// A bare word and bare words behind it are their tokens, and the text of them is tight
/// and one line.
proof fn lemma_words(tag: Seq<char>, words: Seq<Seq<char>>)
    requires
        is_bare(tag),
        all_bare(words),
    ensures
        ({
            let s = tag + spaced_words(words);
            &&& tokens_from(s, 0) == seq![tag] + words
            &&& s.len() > 0
            &&& s[0] == tag[0]
            &&& !is_whitespace(s.last())
            &&& no_feed(s)
        }),
    decreases words.len(),
{
    if words.len() == 0 {
        assert(tag + spaced_words(words) =~= tag);
        lemma_bare_token(tag);
        assert(seq![tag] + words =~= seq![tag]);
        assert(!is_whitespace(tag[tag.len() - 1]));
        assert forall|k: int| 0 <= k < tag.len() implies #[trigger] tag[k] != '\n' by {
            assert(!is_whitespace(tag[k]));
        }
    } else {
        let first = words[0];
        let others = words.skip(1);
        assert(is_bare(words[0]));
        assert forall|i: int| 0 <= i < others.len() implies is_bare(#[trigger] others[i]) by {
            assert(others[i] == words[i + 1]);
        }
        lemma_words(first, others);
        lemma_spaced_first(words);
        let rest = first + spaced_words(others);
        let s = tag + spaced_words(words);
        assert(s =~= tag + (seq![' '] + rest));
        law_word_token(tag, seq![' '] + rest);
        law_blank_before_token(' ', rest);
        assert(seq![tag] + (seq![first] + others) =~= seq![tag] + words);
        assert(s.last() == rest.last());
        assert forall|k: int| 0 <= k < s.len() implies #[trigger] s[k] != '\n' by {
            if k < tag.len() {
                assert(s[k] == tag[k]);
                assert(!is_whitespace(tag[k]));
            } else if k > tag.len() {
                assert(s[k] == rest[k - tag.len() - 1]);
            }
        }
    }
}

/// The first of spaced words stands first.
proof fn lemma_spaced_first(words: Seq<Seq<char>>)
    requires
        words.len() > 0,
    ensures
        spaced_words(words) == seq![' '] + (words[0] + spaced_words(words.skip(1))),
    decreases words.len(),
{
    let others = words.skip(1);
    if words.len() == 1 {
        assert(spaced_words(words.drop_last()) =~= Seq::empty());
        assert(spaced_words(others) =~= Seq::empty());
        assert(spaced_words(words) =~= seq![' '] + (words[0] + spaced_words(others)));
    } else {
        lemma_spaced_first(words.drop_last());
        assert(words.drop_last().skip(1) =~= others.drop_last());
        assert(others.last() == words.last());
        assert(words.drop_last()[0] == words[0]);
        assert(spaced_words(words) =~= seq![' '] + (words[0] + spaced_words(others)));
    }
}

/// The opening line of a block is one line, and shows its tag and its words.
pub proof fn law_opening_line(tag: Seq<char>, words: Seq<Seq<char>>)
    requires
        is_bare(tag),
        all_bare(words),
    ensures
        is_line(opening_line(tag, words)),
        opened(opening_line(tag, words)) == Some(seq![tag] + words),
{
    let line = opening_line(tag, words);
    let core = tag + spaced_words(words);
    lemma_words(tag, words);
    assert(line =~= seq!['<'] + core);
    assert(line[0] == '<');
    assert(line.last() == core.last());
    lemma_trim_tight(line);
    assert(line.skip(1) =~= core);
    lemma_trim_tight(core);
    assert forall|k: int| 0 <= k < line.len() implies #[trigger] line[k] != '\n' by {
        if k > 0 {
            assert(line[k] == core[k - 1]);
        }
    }
}

/// The lines of a project with one track.
spec fn project_lines(project: Seq<char>, track: Seq<char>, chain: Seq<Seq<char>>) -> Seq<
    Seq<char>,
> {
    seq![project, track] + chain + seq![">"@, ">"@]
}

/// The text of a project is that of its lines.
proof fn lemma_project_text(project: Seq<char>, track: Seq<char>, chain: Seq<Seq<char>>)
    ensures
        project_text(project, track, unlines(chain)) == unlines(
            project_lines(project, track, chain),
        ),
{
    reveal_strlit(">");
    reveal_strlit(">\n");
    reveal_strlit("\n");
    let head = seq![project, track];
    let tail = seq![">"@, ">"@];
    assert(">\n"@ =~= ">"@ + "\n"@);
    lemma_unlines_add(head + chain, tail);
    lemma_unlines_add(head, chain);
    lemma_unlines_add(seq![project], seq![track]);
    lemma_unlines_add(seq![">"@], seq![">"@]);
    assert(head =~= seq![project] + seq![track]);
    assert(tail =~= seq![">"@] + seq![">"@]);
    lemma_unlines_one(project);
    lemma_unlines_one(track);
    lemma_unlines_one(">"@);
    let (nl, end) = ("\n"@, ">\n"@);
    let c = unlines(chain);
    assert((project + nl + (track + nl)) + c + (end + end) =~= project + nl + track + nl + c + end
        + end);
}

/// The text of a project comes apart into its lines.
proof fn lemma_project_lines(project: Seq<char>, track: Seq<char>, chain: Seq<Seq<char>>)
    requires
        is_line(project),
        is_line(track),
        forall|k: int| #![trigger chain[k]] 0 <= k < chain.len() ==> is_line(chain[k]),
    ensures
        lines(project_text(project, track, unlines(chain))) == project_lines(project, track, chain),
{
    reveal_strlit(">");
    lemma_project_text(project, track, chain);
    let head = seq![project, track];
    let all = project_lines(project, track, chain);
    assert forall|k: int| 0 <= k < all.len() implies is_line(#[trigger] all[k]) by {
        if k < 2 {
            assert(all[k] == head[k]);
        } else if k < 2 + chain.len() {
            assert(all[k] == chain[k - 2]);
        } else {
            assert(all[k] == ">"@);
        }
    }
    lemma_lines_unlines(all);
}

/// A line that opens a block gives the block, and what stands behind it follows.
proof fn lemma_opened_body(raw: Seq<Seq<char>>, p: int)
    requires
        0 <= p < raw.len(),
        opened(raw[p]) is Some,
    ensures
        ({
            let toks = opened(raw[p])->Some_0;
            let inner = read_body(raw, p + 1);
            let rest = read_body(raw, inner.next);
            read_body(raw, p) == (Body {
                lines: rest.lines,
                children: seq![
                    NodeModel {
                        tag: toks[0],
                        args: toks.skip(1),
                        lines: inner.lines,
                        children: inner.children,
                    },
                ] + rest.children,
                next: rest.next,
            })
        }),
{
    lemma_body_next(raw, p + 1);
    let line = trim(raw[p]);
    assert(line != seq!['>']) by {
        assert(line[0] == '<');
    }
}

/// The line `>` ends a block.
proof fn lemma_closed_body(raw: Seq<Seq<char>>, p: int)
    requires
        0 <= p < raw.len(),
        raw[p] == ">"@,
    ensures
        read_body(raw, p) == (Body {
            lines: Seq::empty(),
            children: Seq::empty(),
            next: p + 1,
        }),
{
    reveal_strlit(">");
    assert(">"@ =~= seq!['>']);
    lemma_trim_tight(">"@);
}

/// The line `<FXCHAIN` opens a block without arguments.
proof fn lemma_chain_opened()
    ensures
        opened("<FXCHAIN"@) == Some(seq!["FXCHAIN"@]),
{
    reveal_strlit("<FXCHAIN");
    reveal_strlit("FXCHAIN");
    let none = Seq::<Seq<char>>::empty();
    let word = "FXCHAIN"@;
    assert forall|i: int| 0 <= i < word.len() implies !is_whitespace(#[trigger] word[i]) by {}
    law_opening_line(word, none);
    assert(opening_line(word, none) =~= "<FXCHAIN"@);
    assert(seq![word] + none =~= seq![word]);
}

/// The blocks of a project with one track that holds a chain: the track, with the chain
/// as its only block and no line.
proof fn lemma_project_body(
    project: Seq<char>,
    track: Seq<char>,
    slots: Seq<SlotModel>,
    ids: Seq<Seq<(Seq<char>, FieldModel)>>,
)
    requires
        opened(track) is Some,
        all_plain(slots, ids),
    ensures
        ({
            let raw = project_lines(project, track, all_lines(slots, ids));
            let toks = opened(track)->Some_0;
            let inner = read_body(raw, 3);
            &&& read_body(raw, 1).children == seq![
                NodeModel {
                    tag: toks[0],
                    args: toks.skip(1),
                    lines: Seq::empty(),
                    children: seq![
                        NodeModel {
                            tag: "FXCHAIN"@,
                            args: Seq::empty(),
                            lines: inner.lines,
                            children: inner.children,
                        },
                    ],
                },
            ]
            &&& fx_chain_of(inner.children) == effects_of(slots, ids)
        }),
{
    let chain = all_lines(slots, ids);
    let raw = project_lines(project, track, chain);
    let n = chain.len() as int;
    assert forall|k: int| #![trigger chain[k]] 0 <= k < n implies raw[2 + k] == chain[k] by {}
    lemma_chain_read(raw, 2, slots, ids);
    assert(raw[n + 2] == ">"@ && raw[n + 3] == ">"@);
    lemma_closed_body(raw, n + 2);
    lemma_closed_body(raw, n + 3);
    lemma_chain_opened();
    lemma_opened_body(raw, 2);
    assert(seq!["FXCHAIN"@].skip(1) =~= Seq::empty());
    let inner = read_body(raw, 3);
    let block = NodeModel {
        tag: "FXCHAIN"@,
        args: Seq::empty(),
        lines: inner.lines,
        children: inner.children,
    };
    assert(read_body(raw, 2).children =~= seq![block]);
    assert(raw[1] == track);
    lemma_opened_body(raw, 1);
    assert(seq![
        NodeModel {
            tag: opened(track)->Some_0[0],
            args: opened(track)->Some_0.skip(1),
            lines: Seq::empty(),
            children: seq![block],
        },
    ] + Seq::<NodeModel>::empty() =~= seq![
        NodeModel {
            tag: opened(track)->Some_0[0],
            args: opened(track)->Some_0.skip(1),
            lines: Seq::empty(),
            children: seq![block],
        },
    ]);
}

/// The track of a block without lines whose only block is a chain.
proof fn lemma_track(track: NodeModel, block: NodeModel)
    requires
        eq_ignore_case(track.tag, "TRACK"@),
        track.lines.len() == 0,
        track.children == seq![block],
        block.tag == "FXCHAIN"@,
    ensures
        tracks_of(seq![track]) == seq![
            TrackModel {
                name: Seq::empty(),
                guid: if track.args.len() > 0 && track.args[0].len() > 0 && track.args[0][0] == '{' {
                    Some(track.args[0])
                } else {
                    None
                },
                fx_chain: fx_chain_of(block.children),
            },
        ],
{
    assert(block_from(track.children, "FXCHAIN"@, 0) == Some(block));
    assert(attribute_from(track.lines, "NAME"@, 0) is None);
    assert(seq![track].drop_last() =~= Seq::empty());
    assert(seq![track].last() == track);
    assert(tracks_of(Seq::<NodeModel>::empty()) =~= Seq::empty());
    assert(tracks_of(seq![track]) =~= seq![track_of(track)]);
}

/// A chain that was written into a track of a project reads back with the project: the
/// project has the one track, and its FX chain holds the effect of every slot, in order.
/// The opening line of the project and that of the track may hold any further tokens.
pub proof fn law_project_reads_back(
    project: Seq<char>,
    track: Seq<char>,
    slots: Seq<SlotModel>,
    ids: Seq<Seq<(Seq<char>, FieldModel)>>,
)
    requires
        is_line(project),
        is_line(track),
        opened(project) matches Some(toks) && eq_ignore_case(toks[0], "REAPER_PROJECT"@),
        opened(track) matches Some(toks) && eq_ignore_case(toks[0], "TRACK"@),
        all_plain(slots, ids),
    ensures
        project_of(project_text(project, track, rfxchain(slots, ids))) == Some(
            ProjectModel {
                version: arg_or_empty(opened(project)->Some_0, 1),
                app_version: arg_or_empty(opened(project)->Some_0, 2),
                tracks: seq![
                    TrackModel {
                        name: Seq::empty(),
                        guid: ({
                            let guid = arg_or_empty(opened(track)->Some_0, 1);
                            if guid.len() > 0 && guid[0] == '{' {
                                Some(guid)
                            } else {
                                None
                            }
                        }),
                        fx_chain: effects_of(slots, ids),
                    },
                ],
            },
        ),
{
    lemma_all_plain(slots, ids);
    lemma_all_lines(slots, ids);
    let chain = all_lines(slots, ids);
    lemma_project_lines(project, track, chain);
    let raw = project_lines(project, track, chain);
    lemma_project_body(project, track, slots, ids);
    let toks = opened(track)->Some_0;
    let inner = read_body(raw, 3);
    let block = NodeModel {
        tag: "FXCHAIN"@,
        args: Seq::empty(),
        lines: inner.lines,
        children: inner.children,
    };
    let node = NodeModel {
        tag: toks[0],
        args: toks.skip(1),
        lines: Seq::empty(),
        children: seq![block],
    };
    lemma_track(node, block);
    assert(raw[0] == project);
    assert(project_header(raw[0]) == opened(project));
}

/// The same for opening lines of bare words: the first two words of the project's line
/// are its version and that of the application, and the first word of the track's line
/// is its GUID, where it begins with a brace.
pub proof fn law_project_of_words_reads_back(
    project: Seq<Seq<char>>,
    track: Seq<Seq<char>>,
    slots: Seq<SlotModel>,
    ids: Seq<Seq<(Seq<char>, FieldModel)>>,
)
    requires
        all_bare(project),
        all_bare(track),
        all_plain(slots, ids),
    ensures
        project_of(
            project_text(
                opening_line("REAPER_PROJECT"@, project),
                opening_line("TRACK"@, track),
                rfxchain(slots, ids),
            ),
        ) == Some(
            ProjectModel {
                version: arg_or_empty(project, 0),
                app_version: arg_or_empty(project, 1),
                tracks: seq![
                    TrackModel {
                        name: Seq::empty(),
                        guid: if track.len() > 0 && track[0][0] == '{' {
                            Some(track[0])
                        } else {
                            None
                        },
                        fx_chain: effects_of(slots, ids),
                    },
                ],
            },
        ),
{
    reveal_strlit("REAPER_PROJECT");
    reveal_strlit("TRACK");
    let (p, t) = ("REAPER_PROJECT"@, "TRACK"@);
    assert(is_bare(p) && is_bare(t)) by {
        assert forall|i: int| 0 <= i < p.len() implies !is_whitespace(#[trigger] p[i]) by {}
        assert forall|i: int| 0 <= i < t.len() implies !is_whitespace(#[trigger] t[i]) by {}
    }
    law_opening_line(p, project);
    law_opening_line(t, track);
    law_project_reads_back(opening_line(p, project), opening_line(t, track), slots, ids);
    let a = seq![p] + project;
    let b = seq![t] + track;
    assert(a[0] == p && b[0] == t);
    assert(arg_or_empty(a, 1) == arg_or_empty(project, 0));
    assert(arg_or_empty(a, 2) == arg_or_empty(project, 1));
    assert(arg_or_empty(b, 1) == arg_or_empty(track, 0));
    if track.len() > 0 {
        assert(is_bare(track[0]));
    }
}

} // verus!
