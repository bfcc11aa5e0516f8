//! Reader for Reaper project files (`.rpp` / `.rpp-bak`).
//!
//! RPP is plain-text LISP-like markup. Each block opens with
//! `<TAGNAME args...` and closes with a bare `>`. Attribute lines inside
//! blocks are whitespace-tokenised key/value pairs. Base64 state lines have
//! no keyword prefix.
//!
//! # Block structure
//! ```text
//! <REAPER_PROJECT 0.1 "6.77/win64" 1714123456
//!   <TRACK {A1B2C3D4-E5F6-7890-ABCD-EF1234567890}
//!     NAME "Drums"
//!     <FXCHAIN
//!       BYPASS 0 0 0
//!       <VST "VST3: Pro-Q 3 (FabFilter)" "FabFilter Pro-Q 3.vst3" 0 "" 1397572658{D8D91CE4-6A7D-4670-8BDE-4B688EC18B43}
//!         AQIDBA==
//!       >
//!     >
//!   >
//! >
//! ```
//!
//! # Plugin identification
//! The first quoted argument to `<VST` (or `<AU`) encodes the format:
//! - `"VST3: Name (Vendor)"`: VST3; GUID parsed from 5th field `uid{GUID}`
//! - `"VST: Name (Vendor)"`: VST2; numeric unique ID in 5th field
//! - `"AU: Name (Vendor)"`: Audio Unit (macOS)
//! - `"CLAP: Name (Vendor)"`: CLAP
//!
//! Bypass state is the 3rd positional field (0 = active, non-zero = bypassed).
//!
//! # State blob
//! Base64-encoded plugin state follows the opening line inside the block.
//! Multiple continuation lines are concatenated directly to form the full blob.
use vstd::prelude::*;
use vstd::slice::slice_subrange;

use crate::text::{
    char_is_whitespace, chars_of, concat, eq_ignore_case, find_from, index_from, is_whitespace,
    last_index, lines, opt_text, rfind, rows, same_ignoring_case, same_text,
    split_lines, strip_prefix, text_of, texts, trim, trim_end_char, trimmed, trimmed_end_char,
    upper, uppercase, utf8_text, without_prefix,
};

verus! {

// ---------------------------------------------------------------------------
// Errors
// ---------------------------------------------------------------------------

#[derive(Debug)]
pub enum ReaperError {
    Io(String),
    Format(String),
}

impl ReaperError {
    /// The message of the error.
    pub open spec fn text(self) -> Seq<char> {
        match self {
            ReaperError::Io(e) => "I/O error: "@ + e@,
            ReaperError::Format(e) => "Format error: "@ + e@,
        }
    }

    /// The message of the error.
    pub fn message(&self) -> (out: String)
        ensures
            out@ == self.text(),
    {
        let mut out = String::new();
        match self {
            ReaperError::Io(e) => {
                out.append("I/O error: ");
                out.append(e.as_str());
            },
            ReaperError::Format(e) => {
                out.append("Format error: ");
                out.append(e.as_str());
            },
        }
        assert(out@ =~= self.text());
        out
    }
}

// ---------------------------------------------------------------------------
// Public types
// ---------------------------------------------------------------------------

#[derive(Debug)]
pub struct ReaperProject {
    /// RPP format version, e.g. `"0.1"`.
    pub version: String,
    /// Reaper application version string, e.g. `"6.77/win64"`.
    pub app_version: String,
    pub tracks: Vec<Track>,
}

#[derive(Debug)]
pub struct Track {
    pub name: String,
    pub guid: Option<String>,
    pub fx_chain: Vec<FxPlugin>,
}

#[derive(Debug)]
pub struct FxPlugin {
    pub name: String,
    pub vendor: Option<String>,
    pub format: PluginFormat,
    pub filename: String,
    pub is_bypassed: bool,
    pub preset_name: Option<String>,
    /// Numeric UID portion of the VST identifier (VST2: plugin ID; VST3: leading digits).
    pub vst_uid: Option<String>,
    /// VST3-only GUID in `{XXXXXXXX-...}` form.
    pub vst3_guid: Option<String>,
    /// Base64 plugin state blob, stored verbatim.
    pub opaque_state: Option<String>,
}

#[derive(Debug, Clone, Copy, PartialEq, Eq, Structural)]
pub enum PluginFormat {
    Vst2,
    Vst3,
    Au,
    Clap,
    Unknown,
}

/// What a `ReaperProject` holds.
#[verifier::ext_equal]
pub struct ProjectModel {
    pub version: Seq<char>,
    pub app_version: Seq<char>,
    pub tracks: Seq<TrackModel>,
}

/// What a `Track` holds.
#[verifier::ext_equal]
pub struct TrackModel {
    pub name: Seq<char>,
    pub guid: Option<Seq<char>>,
    pub fx_chain: Seq<FxModel>,
}

/// What an `FxPlugin` holds.
#[verifier::ext_equal]
pub struct FxModel {
    pub name: Seq<char>,
    pub vendor: Option<Seq<char>>,
    pub format: PluginFormat,
    pub filename: Seq<char>,
    pub is_bypassed: bool,
    pub preset_name: Option<Seq<char>>,
    pub vst_uid: Option<Seq<char>>,
    pub vst3_guid: Option<Seq<char>>,
    pub opaque_state: Option<Seq<char>>,
}

impl View for FxPlugin {
    type V = FxModel;

    open spec fn view(&self) -> FxModel {
        FxModel {
            name: self.name@,
            vendor: opt_text(self.vendor),
            format: self.format,
            filename: self.filename@,
            is_bypassed: self.is_bypassed,
            preset_name: opt_text(self.preset_name),
            vst_uid: opt_text(self.vst_uid),
            vst3_guid: opt_text(self.vst3_guid),
            opaque_state: opt_text(self.opaque_state),
        }
    }
}

impl View for Track {
    type V = TrackModel;

    open spec fn view(&self) -> TrackModel {
        TrackModel {
            name: self.name@,
            guid: opt_text(self.guid),
            fx_chain: self.fx_chain@.map_values(|f: FxPlugin| f@),
        }
    }
}

impl View for ReaperProject {
    type V = ProjectModel;

    open spec fn view(&self) -> ProjectModel {
        ProjectModel {
            version: self.version@,
            app_version: self.app_version@,
            tracks: self.tracks@.map_values(|t: Track| t@),
        }
    }
}

// ---------------------------------------------------------------------------
// Tokens of a line
// ---------------------------------------------------------------------------

/// The character that a backslash and `c` stand for inside quotes.
pub open spec fn unescaped(c: char) -> char {
    if c == 'n' {
        '\n'
    } else if c == 'r' {
        '\r'
    } else if c == 't' {
        '\t'
    } else {
        c
    }
}

/// The quoted text that starts at `i`, behind the opening quote, and the index
/// behind its closing quote. Text without a closing quote runs to the end.
pub open spec fn quoted(s: Seq<char>, i: int) -> (Seq<char>, int)
    decreases s.len() - i,
    when 0 <= i <= s.len()
{
    if i >= s.len() {
        (Seq::empty(), s.len() as int)
    } else if s[i] == '"' {
        (Seq::empty(), i + 1)
    } else if s[i] == '\\' {
        if i + 1 < s.len() {
            let rest = quoted(s, i + 2);
            (seq![unescaped(s[i + 1])] + rest.0, rest.1)
        } else {
            (Seq::empty(), s.len() as int)
        }
    } else {
        let rest = quoted(s, i + 1);
        (seq![s[i]] + rest.0, rest.1)
    }
}

/// The first index at or after `i` at which white space stands, or the length.
pub open spec fn word_end(s: Seq<char>, i: int) -> int
    decreases s.len() - i,
{
    if i >= s.len() {
        s.len() as int
    } else if is_whitespace(s[i]) {
        i
    } else {
        word_end(s, i + 1)
    }
}

/// The tokens of `s` from index `i` on.
pub open spec fn tokens_from(s: Seq<char>, i: int) -> Seq<Seq<char>>
    decreases s.len() - i,
    when 0 <= i <= s.len()
{
    if i >= s.len() {
        Seq::empty()
    } else if is_whitespace(s[i]) {
        tokens_from(s, i + 1)
    } else if s[i] == '"' {
        let q = quoted(s, i + 1);
        if i < q.1 <= s.len() {
            seq![q.0] + tokens_from(s, q.1)
        } else {
            Seq::empty()
        }
    } else {
        let j = word_end(s, i);
        if i < j <= s.len() {
            seq![s.subrange(i, j)] + tokens_from(s, j)
        } else {
            Seq::empty()
        }
    }
}

/// The tokens of a line: words between white space, and quoted texts.
pub open spec fn tokens(s: Seq<char>) -> Seq<Seq<char>> {
    tokens_from(trim(s), 0)
}

/// `quoted` ends within the text.
pub proof fn lemma_quoted_end(s: Seq<char>, i: int)
    requires
        0 <= i <= s.len(),
    ensures
        i <= quoted(s, i).1 <= s.len(),
        i < s.len() ==> i < quoted(s, i).1,
    decreases s.len() - i,
{
    if i < s.len() && s[i] != '"' {
        if s[i] == '\\' {
            if i + 1 < s.len() {
                lemma_quoted_end(s, i + 2);
            }
        } else {
            lemma_quoted_end(s, i + 1);
        }
    }
}

/// The character that a backslash and `c` stand for inside quotes.
fn unescape(c: char) -> (out: char)
    ensures
        out == unescaped(c),
{
    if c == 'n' {
        '\n'
    } else if c == 'r' {
        '\r'
    } else if c == 't' {
        '\t'
    } else {
        c
    }
}

/// The quoted text that starts at `from`, and the index behind it.
fn read_quoted(s: &[char], from: usize) -> (out: (String, usize))
    requires
        from <= s@.len(),
    ensures
        (out.0@, out.1 as int) == quoted(s@, from as int),
        from <= out.1 <= s@.len(),
        from < s@.len() ==> from < out.1,
{
    let mut buf = String::new();
    let mut i: usize = from;
    let ghost whole = quoted(s@, from as int);
    proof {
        lemma_quoted_end(s@, from as int);
        assert(buf@ + whole.0 =~= whole.0);
    }
    while i < s.len() && s[i] != '"'
        invariant
            from <= i <= s@.len(),
            whole == quoted(s@, from as int),
            whole.0 == buf@ + quoted(s@, i as int).0,
            whole.1 == quoted(s@, i as int).1,
            from <= whole.1 <= s@.len(),
            from < s@.len() ==> from < whole.1,
        decreases s@.len() - i,
    {
        let ghost before = buf@;
        if s[i] == '\\' {
            if i + 1 < s.len() {
                let c = unescape(s[i + 1]);
                buf.push(c);
                assert(before + (seq![c] + quoted(s@, i + 2).0) =~= buf@ + quoted(s@, i + 2).0);
                i = i + 2;
            } else {
                i = s.len();
            }
        } else {
            let c = s[i];
            buf.push(c);
            assert(before + (seq![c] + quoted(s@, i + 1).0) =~= buf@ + quoted(s@, i + 1).0);
            i = i + 1;
        }
    }
    assert(buf@ =~= whole.0);
    if i < s.len() {
        (buf, i + 1)
    } else {
        (buf, s.len())
    }
}

/// The first index at or after `from` at which white space stands, or the length.
fn read_word(s: &[char], from: usize) -> (end: usize)
    requires
        from < s@.len(),
        !is_whitespace(s@[from as int]),
    ensures
        end == word_end(s@, from as int),
        from < end <= s@.len(),
{
    let n: usize = s.len();
    let mut i: usize = from + 1;
    while i < n && !char_is_whitespace(s[i])
        invariant
            n == s@.len(),
            from < i <= n,
            word_end(s@, from as int) == word_end(s@, i as int),
        decreases s@.len() - i,
    {
        i = i + 1;
    }
    i
}

/// The tokens of a line: words between white space, and quoted texts.
pub fn tokenize(line: &[char]) -> (out: Vec<String>)
    ensures
        texts(out@) == tokens(line@),
{
    let s = trimmed(line);
    let mut out: Vec<String> = Vec::new();
    let mut i: usize = 0;
    assert(texts(out@) + tokens_from(s@, 0) =~= tokens(line@));
    while i < s.len()
        invariant
            s@ == trim(line@),
            i <= s@.len(),
            texts(out@) + tokens_from(s@, i as int) == tokens(line@),
        decreases s@.len() - i,
    {
        let ghost before = texts(out@);
        if char_is_whitespace(s[i]) {
            i = i + 1;
        } else {
            let token: String;
            let next: usize;
            if s[i] == '"' {
                let q = read_quoted(s, i + 1);
                token = q.0;
                next = q.1;
            } else {
                next = read_word(s, i);
                token = text_of(slice_subrange(s, i, next));
            }
            out.push(token);
            assert(texts(out@) =~= before.push(token@));
            assert(texts(out@) + tokens_from(s@, next as int) =~= before + (seq![token@]
                + tokens_from(s@, next as int)));
            i = next;
        }
    }
    assert(texts(out@) + tokens_from(s@, i as int) =~= texts(out@));
    out
}

// ---------------------------------------------------------------------------
// Tree of blocks
// ---------------------------------------------------------------------------

/// A block: its tag and arguments, the lines in it, each split into tokens, and
/// the blocks in it.
pub struct Node {
    pub tag: String,
    pub args: Vec<String>,
    pub lines: Vec<Vec<String>>,
    pub children: Vec<Node>,
}

/// What a `Node` holds.
#[verifier::ext_equal]
pub struct NodeModel {
    pub tag: Seq<char>,
    pub args: Seq<Seq<char>>,
    pub lines: Seq<Seq<Seq<char>>>,
    pub children: Seq<NodeModel>,
}

/// The tokens of each line of a list.
pub open spec fn token_lines(list: Seq<Vec<String>>) -> Seq<Seq<Seq<char>>> {
    list.map_values(|l: Vec<String>| texts(l@))
}

impl Node {
    /// What the block holds.
    pub open spec fn model(self) -> NodeModel
        decreases self,
    {
        NodeModel {
            tag: self.tag@,
            args: texts(self.args@),
            lines: token_lines(self.lines@),
            children: Seq::new(
                self.children@.len(),
                |i: int|
                    if 0 <= i < self.children@.len() {
                        self.children@[i].model()
                    } else {
                        arbitrary()
                    },
            ),
        }
    }
}

/// What each block of a list holds.
pub open spec fn models(list: Seq<Node>) -> Seq<NodeModel> {
    list.map_values(|n: Node| n.model())
}

/// The inside of a block: its lines, its blocks, and the line behind its end.
#[verifier::ext_equal]
pub struct Body {
    pub lines: Seq<Seq<Seq<char>>>,
    pub children: Seq<NodeModel>,
    pub next: int,
}

/// The inside of the block whose first inner line is `raw[pos]`. It ends behind
/// the line `>`, or with the text. Behind the text it is empty and ends where it begins.
pub open spec fn read_body(raw: Seq<Seq<char>>, pos: int) -> Body
    decreases raw.len() - pos,
    when 0 <= pos
{
    if pos >= raw.len() {
        Body { lines: Seq::empty(), children: Seq::empty(), next: pos }
    } else {
        let line = trim(raw[pos]);
        if line == seq!['>'] {
            Body { lines: Seq::empty(), children: Seq::empty(), next: pos + 1 }
        } else if line.len() > 0 && line[0] == '<' {
            let toks = tokens(line.skip(1));
            if toks.len() > 0 {
                let inner = read_body(raw, pos + 1);
                if pos < inner.next <= raw.len() {
                    let child = NodeModel {
                        tag: toks[0],
                        args: toks.skip(1),
                        lines: inner.lines,
                        children: inner.children,
                    };
                    let rest = read_body(raw, inner.next);
                    Body {
                        lines: rest.lines,
                        children: seq![child] + rest.children,
                        next: rest.next,
                    }
                } else {
                    arbitrary()
                }
            } else {
                read_body(raw, pos + 1)
            }
        } else {
            let toks = tokens(line);
            let rest = read_body(raw, pos + 1);
            if toks.len() > 0 {
                Body { lines: seq![toks] + rest.lines, children: rest.children, next: rest.next }
            } else {
                rest
            }
        }
    }
}

/// The block with the given tag and arguments whose first inner line is `raw[pos]`.
pub open spec fn node_at(
    raw: Seq<Seq<char>>,
    pos: int,
    tag: Seq<char>,
    args: Seq<Seq<char>>,
) -> NodeModel {
    let body = read_body(raw, pos);
    NodeModel { tag, args, lines: body.lines, children: body.children }
}

/// A block ends within the text, behind its first inner line.
pub proof fn lemma_body_next(raw: Seq<Seq<char>>, pos: int)
    requires
        0 <= pos <= raw.len(),
    ensures
        pos <= read_body(raw, pos).next <= raw.len(),
        pos < raw.len() ==> pos < read_body(raw, pos).next,
    decreases raw.len() - pos,
{
    if pos < raw.len() {
        lemma_body_next(raw, pos + 1);
        let inner = read_body(raw, pos + 1);
        lemma_body_next(raw, inner.next);
    }
}

/// The tokens of a list behind the first.
fn tail(list: &Vec<String>) -> (out: Vec<String>)
    requires
        list@.len() > 0,
    ensures
        texts(out@) == texts(list@).skip(1),
{
    let mut out: Vec<String> = Vec::new();
    for i in 1..list.len()
        invariant
            texts(out@) == texts(list@).subrange(1, i as int),
    {
        let ghost before = texts(out@);
        out.push(list[i].clone());
        assert(texts(out@) =~= before.push(list@[i as int]@));
        assert(texts(list@).subrange(1, i + 1) =~= before.push(list@[i as int]@));
    }
    assert(texts(list@).subrange(1, list@.len() as int) =~= texts(list@).skip(1));
    out
}

/// Reads the block with the given tag and arguments whose first inner line is
/// `raw[pos]`, and moves `pos` behind it.
pub fn read_node(raw: &Vec<Vec<char>>, pos: &mut usize, tag: String, args: Vec<String>) -> (node:
    Node)
    ensures
        node.model() == node_at(rows(raw@), *old(pos) as int, tag@, texts(args@)),
        *final(pos) == read_body(rows(raw@), *old(pos) as int).next,
    decreases raw@.len() - *old(pos),
{
    let mut out_lines: Vec<Vec<String>> = Vec::new();
    let mut children: Vec<Node> = Vec::new();
    let ghost start = *pos as int;
    let ghost all = rows(raw@);
    let ghost whole = read_body(all, start);
    let mut at: usize = *pos;
    proof {
        if start <= all.len() {
            lemma_body_next(all, start);
        }
        assert(token_lines(out_lines@) + whole.lines =~= whole.lines);
        assert(models(children@) + whole.children =~= whole.children);
    }
    while at < raw.len()
        invariant_except_break
            whole.lines == token_lines(out_lines@) + read_body(all, at as int).lines,
            whole.children == models(children@) + read_body(all, at as int).children,
            whole.next == read_body(all, at as int).next,
        invariant
            all == rows(raw@),
            start == *old(pos),
            start <= at,
            at <= raw@.len() || at == start,
        ensures
            whole.lines == token_lines(out_lines@),
            whole.children == models(children@),
            whole.next == at,
        decreases raw@.len() - at,
    {
        let ghost before_lines = token_lines(out_lines@);
        let ghost before = models(children@);
        let ghost here = read_body(all, at as int);
        let line = trimmed(raw[at].as_slice());
        assert(line@ == trim(all[at as int]));
        at = at + 1;
        if line.len() == 1 && line[0] == '>' {
            assert(line@ =~= seq!['>']);
            assert(before_lines + here.lines =~= before_lines);
            assert(before + here.children =~= before);
            break;
        }
        assert(line@ != seq!['>']);
        if line.len() > 0 && line[0] == '<' {
            let rest = slice_subrange(line, 1, line.len());
            assert(rest@ =~= line@.skip(1));
            let toks = tokenize(rest);
            if toks.len() > 0 {
                let first = toks[0].clone();
                let args = tail(&toks);
                let ghost inner = read_body(all, at as int);
                proof {
                    lemma_body_next(all, at as int);
                }
                let child = read_node(raw, &mut at, first, args);
                children.push(child);
                assert(models(children@) =~= before.push(child.model()));
                assert(before + here.children =~= models(children@) + read_body(
                    all,
                    at as int,
                ).children);
            }
        } else {
            let toks = tokenize(line);
            if toks.len() > 0 {
                out_lines.push(toks);
                assert(token_lines(out_lines@) =~= before_lines.push(texts(toks@)));
                assert(before_lines + here.lines =~= token_lines(out_lines@) + read_body(
                    all,
                    at as int,
                ).lines);
            }
        }
    }
    *pos = at;
    let node = Node { tag, args, lines: out_lines, children };
    assert(node.model().children =~= models(children@));
    node
}

// ---------------------------------------------------------------------------
// Plugins, tracks and projects
// ---------------------------------------------------------------------------

/// The format that a display name or else a block's tag tells, and the display
/// name without its format prefix.
pub open spec fn format_and_rest(display: Seq<char>, tag: Seq<char>) -> (PluginFormat, Seq<char>) {
    if strip_prefix(display, "VST3: "@) is Some {
        (PluginFormat::Vst3, strip_prefix(display, "VST3: "@)->0)
    } else if strip_prefix(display, "VST: "@) is Some {
        (PluginFormat::Vst2, strip_prefix(display, "VST: "@)->0)
    } else if strip_prefix(display, "AU: "@) is Some {
        (PluginFormat::Au, strip_prefix(display, "AU: "@)->0)
    } else if strip_prefix(display, "CLAP: "@) is Some {
        (PluginFormat::Clap, strip_prefix(display, "CLAP: "@)->0)
    } else if eq_ignore_case(tag, "AU"@) {
        (PluginFormat::Au, display)
    } else if eq_ignore_case(tag, "CLAP"@) {
        (PluginFormat::Clap, display)
    } else {
        (PluginFormat::Vst2, display)
    }
}

/// `s`, where it is not empty.
pub open spec fn non_empty(s: Seq<char>) -> Option<Seq<char>> {
    if s.len() == 0 {
        None
    } else {
        Some(s)
    }
}

/// The name and the vendor that a display name tells: the vendor stands in the
/// last parentheses.
pub open spec fn name_and_vendor(rest: Seq<char>) -> (Seq<char>, Option<Seq<char>>) {
    match rfind(rest, '(') {
        Some(paren) => (
            trim(rest.take(paren)),
            non_empty(trim(trim_end_char(rest.skip(paren + 1), ')'))),
        ),
        None => (rest, None),
    }
}

/// The numeric part and the GUID of an identifier such as `1397572658{D8D9...}`.
pub open spec fn uid_parts(uid: Seq<char>) -> (Option<Seq<char>>, Option<Seq<char>>) {
    let brace = find_from(uid, '{', 0);
    if brace < uid.len() {
        let guid = uid.skip(brace);
        (
            non_empty(uid.take(brace)),
            if vstd::utf8::encode_utf8(guid).len() > 2 {
                Some(guid)
            } else {
                None
            },
        )
    } else {
        (non_empty(uid), None)
    }
}

/// Whether `word`, in capitals, is an attribute keyword of an effect's block.
pub open spec fn is_attribute(word: Seq<char>) -> bool {
    let key = upper(word);
    ||| key == "BYPASS"@
    ||| key == "PRESETNAME"@
    ||| key == "FLOATPOS"@
    ||| key == "FXID"@
    ||| key == "SHOW"@
    ||| key == "WAK"@
}

/// The tokens of the lines that do not begin with an attribute keyword, one
/// after the other.
pub open spec fn state_text(lines: Seq<Seq<Seq<char>>>) -> Seq<char>
    decreases lines.len(),
{
    if lines.len() == 0 {
        Seq::empty()
    } else {
        let line = lines.last();
        let before = state_text(lines.drop_last());
        if line.len() > 0 && !is_attribute(line[0]) {
            before + concat(line)
        } else {
            before
        }
    }
}

/// The token at `i`, or an empty text.
pub open spec fn arg_or_empty(args: Seq<Seq<char>>, i: int) -> Seq<char> {
    if i < args.len() {
        args[i]
    } else {
        Seq::empty()
    }
}

/// The effect that a block describes. A block without arguments describes none.
pub open spec fn fx_of(node: NodeModel) -> Option<FxModel> {
    if node.args.len() == 0 {
        None
    } else {
        let f = format_and_rest(node.args[0], node.tag);
        let n = name_and_vendor(f.1);
        let uid = if node.args.len() > 4 {
            uid_parts(node.args[4])
        } else {
            (None, None)
        };
        Some(
            FxModel {
                name: n.0,
                vendor: n.1,
                format: f.0,
                filename: arg_or_empty(node.args, 1),
                is_bypassed: node.args.len() > 2 && node.args[2] != seq!['0'],
                preset_name: non_empty(arg_or_empty(node.args, 3)),
                vst_uid: uid.0,
                vst3_guid: uid.1,
                opaque_state: non_empty(state_text(node.lines)),
            },
        )
    }
}

/// Whether the tag of a block is that of an effect.
pub open spec fn is_fx_tag(tag: Seq<char>) -> bool {
    let key = upper(tag);
    key == "VST"@ || key == "AU"@ || key == "CLAP"@
}

/// The effects that the blocks of a chain describe, in order.
pub open spec fn fx_chain_of(children: Seq<NodeModel>) -> Seq<FxModel>
    decreases children.len(),
{
    if children.len() == 0 {
        Seq::empty()
    } else {
        let before = fx_chain_of(children.drop_last());
        let node = children.last();
        if is_fx_tag(node.tag) {
            match fx_of(node) {
                Some(fx) => before.push(fx),
                None => before,
            }
        } else {
            before
        }
    }
}

/// The first block at or after `i` with the given tag.
pub open spec fn block_from(children: Seq<NodeModel>, tag: Seq<char>, i: int) -> Option<NodeModel>
    decreases children.len() - i,
{
    if i >= children.len() {
        None
    } else if eq_ignore_case(children[i].tag, tag) {
        Some(children[i])
    } else {
        block_from(children, tag, i + 1)
    }
}

/// The second token of the first line at or after `i` that begins with `key`.
pub open spec fn attribute_from(
    lines: Seq<Seq<Seq<char>>>,
    key: Seq<char>,
    i: int,
) -> Option<Seq<char>>
    decreases lines.len() - i,
{
    if i >= lines.len() {
        None
    } else if lines[i].len() > 0 && eq_ignore_case(lines[i][0], key) {
        if lines[i].len() > 1 {
            Some(lines[i][1])
        } else {
            None
        }
    } else {
        attribute_from(lines, key, i + 1)
    }
}

/// The track that a block describes.
pub open spec fn track_of(node: NodeModel) -> TrackModel {
    TrackModel {
        name: match attribute_from(node.lines, "NAME"@, 0) {
            Some(v) => v,
            None => Seq::empty(),
        },
        guid: if node.args.len() > 0 && node.args[0].len() > 0 && node.args[0][0] == '{' {
            Some(node.args[0])
        } else {
            None
        },
        fx_chain: match block_from(node.children, "FXCHAIN"@, 0) {
            Some(chain) => fx_chain_of(chain.children),
            None => Seq::empty(),
        },
    }
}

/// The tracks among the blocks of a project, in order.
pub open spec fn tracks_of(children: Seq<NodeModel>) -> Seq<TrackModel>
    decreases children.len(),
{
    if children.len() == 0 {
        Seq::empty()
    } else {
        let before = tracks_of(children.drop_last());
        if eq_ignore_case(children.last().tag, "TRACK"@) {
            before.push(track_of(children.last()))
        } else {
            before
        }
    }
}

/// The tokens of the line, where it opens a project.
pub open spec fn project_header(line: Seq<char>) -> Option<Seq<Seq<char>>> {
    let t = trim(line);
    if t.len() > 0 && t[0] == '<' {
        let toks = tokens(t.skip(1));
        if toks.len() > 0 && eq_ignore_case(toks[0], "REAPER_PROJECT"@) {
            Some(toks)
        } else {
            None
        }
    } else {
        None
    }
}

/// The first project that opens at or after the line `i`.
pub open spec fn project_from(raw: Seq<Seq<char>>, i: int) -> Option<ProjectModel>
    decreases raw.len() - i,
{
    if i >= raw.len() {
        None
    } else {
        match project_header(raw[i]) {
            Some(toks) => {
                let args = toks.skip(1);
                Some(
                    ProjectModel {
                        version: arg_or_empty(args, 0),
                        app_version: arg_or_empty(args, 1),
                        tracks: tracks_of(read_body(raw, i + 1).children),
                    },
                )
            },
            None => project_from(raw, i + 1),
        }
    }
}

/// The project that an RPP text describes.
pub open spec fn project_of(content: Seq<char>) -> Option<ProjectModel> {
    project_from(lines(content), 0)
}

/// `s`, where it is not empty.
fn some_text(s: String) -> (out: Option<String>)
    ensures
        opt_text(out) == non_empty(s@),
{
    if s.as_str().is_empty() {
        None
    } else {
        Some(s)
    }
}

/// The format, the name and the vendor that a display name tells. `block_tag`
/// decides the format where the display name has no format prefix.
pub fn split_display_name(display: &str, block_tag: &str) -> (out: (
    PluginFormat,
    String,
    Option<String>,
))
    ensures
        out.0 == format_and_rest(display@, block_tag@).0,
        (out.1@, opt_text(out.2)) == name_and_vendor(format_and_rest(display@, block_tag@).1),
{
    let cs = chars_of(display);
    let all = cs.as_slice();
    let fmt: PluginFormat;
    let rest: &[char];
    if let Some(r) = without_prefix(all, "VST3: ") {
        fmt = PluginFormat::Vst3;
        rest = r;
    } else if let Some(r) = without_prefix(all, "VST: ") {
        fmt = PluginFormat::Vst2;
        rest = r;
    } else if let Some(r) = without_prefix(all, "AU: ") {
        fmt = PluginFormat::Au;
        rest = r;
    } else if let Some(r) = without_prefix(all, "CLAP: ") {
        fmt = PluginFormat::Clap;
        rest = r;
    } else if same_ignoring_case(block_tag, "AU") {
        fmt = PluginFormat::Au;
        rest = all;
    } else if same_ignoring_case(block_tag, "CLAP") {
        fmt = PluginFormat::Clap;
        rest = all;
    } else {
        fmt = PluginFormat::Vst2;
        rest = all;
    }
    match last_index(rest, '(') {
        Some(paren) => {
            let name = text_of(trimmed(slice_subrange(rest, 0, paren)));
            assert(rest@.subrange(0, paren as int) =~= rest@.take(paren as int));
            let behind = slice_subrange(rest, paren + 1, rest.len());
            assert(behind@ =~= rest@.skip(paren + 1));
            let vendor = text_of(trimmed(trimmed_end_char(behind, ')')));
            (fmt, name, some_text(vendor))
        },
        None => (fmt, text_of(rest), None),
    }
}

/// The numeric part and the GUID of an identifier such as `1397572658{D8D9...}`.
pub fn split_uid(uid: &str) -> (out: (Option<String>, Option<String>))
    ensures
        (opt_text(out.0), opt_text(out.1)) == uid_parts(uid@),
{
    let cs = chars_of(uid);
    let brace = index_from(cs.as_slice(), '{', 0);
    if brace < cs.len() {
        let num = text_of(slice_subrange(cs.as_slice(), 0, brace));
        let guid = text_of(slice_subrange(cs.as_slice(), brace, cs.len()));
        assert(num@ =~= uid@.take(brace as int));
        assert(guid@ =~= uid@.skip(brace as int));
        let long = guid.as_str().as_bytes().len() > 2;
        (
            some_text(num),
            if long {
                Some(guid)
            } else {
                None
            },
        )
    } else {
        let all = text_of(cs.as_slice());
        (some_text(all), None)
    }
}

/// Whether `word`, in capitals, is an attribute keyword of an effect's block.
fn names_attribute(word: &str) -> (yes: bool)
    ensures
        yes == is_attribute(word@),
{
    let key = uppercase(word);
    same_text(key.as_str(), "BYPASS") || same_text(key.as_str(), "PRESETNAME") || same_text(
        key.as_str(),
        "FLOATPOS",
    ) || same_text(key.as_str(), "FXID") || same_text(key.as_str(), "SHOW") || same_text(
        key.as_str(),
        "WAK",
    )
}

/// Appends the tokens of a line to `out`.
fn append_tokens(line: &Vec<String>, out: &mut String)
    ensures
        final(out)@ == old(out)@ + concat(texts(line@)),
{
    assert(out@ =~= out@ + concat(texts(line@).take(0)));
    for i in 0..line.len()
        invariant
            out@ == old(out)@ + concat(texts(line@).take(i as int)),
    {
        let ghost before = concat(texts(line@).take(i as int));
        out.append(line[i].as_str());
        proof {
            let next = texts(line@).take(i + 1);
            assert(next.drop_last() =~= texts(line@).take(i as int));
            assert(next.last() == line@[i as int]@);
            assert((old(out)@ + before) + line@[i as int]@ =~= old(out)@ + (before
                + line@[i as int]@));
        }
    }
    assert(texts(line@).take(line@.len() as int) =~= texts(line@));
}

/// The base64 state blob of an effect's block: its lines that do not begin with
/// an attribute keyword, one after the other.
pub fn state_blob(node: &Node) -> (out: Option<String>)
    ensures
        opt_text(out) == non_empty(state_text(node.model().lines)),
{
    let mut blob = String::new();
    let ghost all = token_lines(node.lines@);
    for i in 0..node.lines.len()
        invariant
            all == token_lines(node.lines@),
            blob@ == state_text(all.take(i as int)),
    {
        let line = &node.lines[i];
        proof {
            let next = all.take(i + 1);
            assert(next.drop_last() =~= all.take(i as int));
            assert(next.last() == texts(line@));
        }
        if line.len() > 0 && !names_attribute(line[0].as_str()) {
            append_tokens(line, &mut blob);
        }
    }
    assert(all.take(all.len() as int) =~= all);
    some_text(blob)
}

/// The token at `i`, or an empty text.
fn arg_text(args: &Vec<String>, i: usize) -> (out: String)
    ensures
        out@ == arg_or_empty(texts(args@), i as int),
{
    if i < args.len() {
        args[i].clone()
    } else {
        String::new()
    }
}

/// The effect that a block describes. A block without arguments describes none.
pub fn build_fx_plugin(node: &Node) -> (out: Option<FxPlugin>)
    ensures
        match out {
            Some(fx) => fx_of(node.model()) == Some(fx@),
            None => fx_of(node.model()) is None,
        },
{
    if node.args.len() == 0 {
        return None;
    }
    let filename = arg_text(&node.args, 1);
    let is_bypassed = node.args.len() > 2 && !same_text(node.args[2].as_str(), "0");
    proof {
        reveal_strlit("0");
        assert("0"@ =~= seq!['0']);
    }
    let preset_name = some_text(arg_text(&node.args, 3));
    let (format, name, vendor) = split_display_name(node.args[0].as_str(), node.tag.as_str());
    let (vst_uid, vst3_guid) = if node.args.len() > 4 {
        split_uid(node.args[4].as_str())
    } else {
        (None, None)
    };
    let opaque_state = state_blob(node);
    let fx = FxPlugin {
        name,
        vendor,
        format,
        filename,
        is_bypassed,
        preset_name,
        vst_uid,
        vst3_guid,
        opaque_state,
    };
    Some(fx)
}

/// The effects that the blocks of a chain describe, in order.
pub fn build_fxchain(node: &Node) -> (out: Vec<FxPlugin>)
    ensures
        out@.map_values(|f: FxPlugin| f@) == fx_chain_of(node.model().children),
{
    let mut out: Vec<FxPlugin> = Vec::new();
    let ghost all = node.model().children;
    assert(out@.map_values(|f: FxPlugin| f@) =~= fx_chain_of(all.take(0)));
    for i in 0..node.children.len()
        invariant
            all == node.model().children,
            out@.map_values(|f: FxPlugin| f@) == fx_chain_of(all.take(i as int)),
    {
        let child = &node.children[i];
        let ghost before = out@.map_values(|f: FxPlugin| f@);
        proof {
            let next = all.take(i + 1);
            assert(next.drop_last() =~= all.take(i as int));
            assert(next.last() == child.model());
        }
        let key = uppercase(child.tag.as_str());
        if same_text(key.as_str(), "VST") || same_text(key.as_str(), "AU") || same_text(
            key.as_str(),
            "CLAP",
        ) {
            if let Some(fx) = build_fx_plugin(child) {
                out.push(fx);
                assert(out@.map_values(|f: FxPlugin| f@) =~= before.push(fx@));
            }
        }
    }
    assert(all.take(all.len() as int) =~= all);
    out
}

/// The second token of the first line that begins with `key`.
pub fn attr_val(node: &Node, key: &str) -> (out: Option<String>)
    ensures
        opt_text(out) == attribute_from(node.model().lines, key@, 0),
{
    let ghost all = token_lines(node.lines@);
    for i in 0..node.lines.len()
        invariant
            all == token_lines(node.lines@),
            attribute_from(all, key@, 0) == attribute_from(all, key@, i as int),
    {
        let line = &node.lines[i];
        assert(all[i as int] == texts(line@));
        if line.len() > 0 && same_ignoring_case(line[0].as_str(), key) {
            if line.len() > 1 {
                return Some(line[1].clone());
            }
            return None;
        }
    }
    None
}

/// The track that a block describes.
pub fn build_track(node: &Node) -> (out: Track)
    ensures
        out@ == track_of(node.model()),
{
    let guid = if node.args.len() > 0 {
        let first = chars_of(node.args[0].as_str());
        if first.len() > 0 && first[0] == '{' {
            Some(node.args[0].clone())
        } else {
            None
        }
    } else {
        None
    };
    let name = match attr_val(node, "NAME") {
        Some(v) => v,
        None => String::new(),
    };
    let ghost all = node.model().children;
    let mut fx_chain: Vec<FxPlugin> = Vec::new();
    let mut i: usize = 0;
    assert(fx_chain@.map_values(|f: FxPlugin| f@) =~= Seq::<FxModel>::empty());
    while i < node.children.len()
        invariant_except_break
            block_from(all, "FXCHAIN"@, 0) == block_from(all, "FXCHAIN"@, i as int),
            fx_chain@.map_values(|f: FxPlugin| f@) == Seq::<FxModel>::empty(),
        invariant
            all == node.model().children,
            i <= node.children@.len(),
        ensures
            fx_chain@.map_values(|f: FxPlugin| f@) == (match block_from(all, "FXCHAIN"@, 0) {
                Some(chain) => fx_chain_of(chain.children),
                None => Seq::empty(),
            }),
        decreases node.children@.len() - i,
    {
        let child = &node.children[i];
        assert(all[i as int] == child.model());
        if same_ignoring_case(child.tag.as_str(), "FXCHAIN") {
            fx_chain = build_fxchain(child);
            break;
        }
        i = i + 1;
    }
    Track { name, guid, fx_chain }
}

/// The project with the given versions whose tracks the block `root` holds.
pub fn build_project(version: String, app_version: String, root: &Node) -> (out: ReaperProject)
    ensures
        out@ == (ProjectModel {
            version: version@,
            app_version: app_version@,
            tracks: tracks_of(root.model().children),
        }),
{
    let mut tracks: Vec<Track> = Vec::new();
    let ghost all = root.model().children;
    assert(tracks@.map_values(|t: Track| t@) =~= tracks_of(all.take(0)));
    for i in 0..root.children.len()
        invariant
            all == root.model().children,
            tracks@.map_values(|t: Track| t@) == tracks_of(all.take(i as int)),
    {
        let child = &root.children[i];
        let ghost before = tracks@.map_values(|t: Track| t@);
        proof {
            let next = all.take(i + 1);
            assert(next.drop_last() =~= all.take(i as int));
            assert(next.last() == child.model());
        }
        if same_ignoring_case(child.tag.as_str(), "TRACK") {
            let track = build_track(child);
            tracks.push(track);
            assert(tracks@.map_values(|t: Track| t@) =~= before.push(track@));
        }
    }
    assert(all.take(all.len() as int) =~= all);
    ReaperProject { version, app_version, tracks }
}

/// The project that an RPP text describes. A text without a `REAPER_PROJECT`
/// block is an error.
pub fn parse_rpp(content: &str) -> (out: Result<ReaperProject, ReaperError>)
    ensures
        match out {
            Ok(p) => project_of(content@) == Some(p@),
            Err(ReaperError::Format(e)) => project_of(content@) is None && e@
                == "REAPER_PROJECT block not found"@,
            Err(ReaperError::Io(_)) => false,
        },
{
    let cs = chars_of(content);
    let raw = split_lines(cs.as_slice());
    let ghost all = lines(content@);
    let mut pos: usize = 0;
    while pos < raw.len()
        invariant
            all == rows(raw@),
            all == lines(content@),
            pos <= raw@.len(),
            project_of(content@) == project_from(all, pos as int),
        decreases raw@.len() - pos,
    {
        let line = trimmed(raw[pos].as_slice());
        assert(line@ == trim(all[pos as int]));
        pos = pos + 1;
        if line.len() > 0 && line[0] == '<' {
            let rest = slice_subrange(line, 1, line.len());
            assert(rest@ =~= line@.skip(1));
            let toks = tokenize(rest);
            if toks.len() > 0 && same_ignoring_case(toks[0].as_str(), "REAPER_PROJECT") {
                let args = tail(&toks);
                let version = arg_text(&args, 0);
                let app_version = arg_text(&args, 1);
                let root = read_node(&raw, &mut pos, toks[0].clone(), args);
                return Ok(build_project(version, app_version, &root));
            }
        }
    }
    Err(ReaperError::Format("REAPER_PROJECT block not found".to_owned()))
}

/// The project that the bytes of an RPP file describe. Bytes that are not UTF-8
/// are an I/O error.
pub fn read_rpp(data: &[u8]) -> (out: Result<ReaperProject, ReaperError>)
    ensures
        match out {
            Ok(p) => vstd::utf8::valid_utf8(data@) && project_of(vstd::utf8::decode_utf8(data@))
                == Some(p@),
            Err(ReaperError::Format(e)) => vstd::utf8::valid_utf8(data@) && project_of(
                vstd::utf8::decode_utf8(data@),
            ) is None && e@ == "REAPER_PROJECT block not found"@,
            Err(ReaperError::Io(e)) => !vstd::utf8::valid_utf8(data@) && e@
                == "stream did not contain valid UTF-8"@,
        },
{
    match utf8_text(data) {
        Some(content) => parse_rpp(content.as_str()),
        None => Err(ReaperError::Io("stream did not contain valid UTF-8".to_owned())),
    }
}

} // verus!
