//! Text as a sequence of characters: trimming, searching, splitting, case
//! folding, escaping and decimal numbers.
use vstd::prelude::*;
use vstd::slice::slice_subrange;

verus! {

// ---------------------------------------------------------------------------
// Views
// ---------------------------------------------------------------------------

/// The contents of each string of a list.
pub open spec fn texts(list: Seq<String>) -> Seq<Seq<char>> {
    list.map_values(|s: String| s@)
}

/// The contents of an optional string.
pub open spec fn opt_text(o: Option<String>) -> Option<Seq<char>> {
    match o {
        Some(s) => Some(s@),
        None => None,
    }
}

/// The contents of an optional string slice.
pub open spec fn opt_str(o: Option<&str>) -> Option<Seq<char>> {
    match o {
        Some(s) => Some(s@),
        None => None,
    }
}

/// The characters of each line of a list.
pub open spec fn rows(list: Seq<Vec<char>>) -> Seq<Seq<char>> {
    list.map_values(|r: Vec<char>| r@)
}

// ---------------------------------------------------------------------------
// Strings and characters
// ---------------------------------------------------------------------------

/// `String::push` appends one character.
pub assume_specification[ String::push ](s: &mut String, c: char)
    ensures
        final(s)@ == old(s)@.push(c),
;

/// Whether two texts hold the same characters.
pub(crate) fn same_text(a: &str, b: &str) -> (same: bool)
    ensures
        same == (a@ == b@),
{
    let x = a.as_bytes();
    let y = b.as_bytes();
    if x.len() != y.len() {
        return false;
    }
    for i in 0..x.len()
        invariant
            x@ == vstd::utf8::encode_utf8(a@),
            y@ == vstd::utf8::encode_utf8(b@),
            x@.len() == y@.len(),
            forall|j: int| 0 <= j < i ==> x@[j] == y@[j],
    {
        if x[i] != y[i] {
            return false;
        }
    }
    proof {
        assert(x@ =~= y@);
        vstd::utf8::encode_utf8_decode_utf8(a@);
        vstd::utf8::encode_utf8_decode_utf8(b@);
    }
    true
}

/// The characters of `s`, in order.
pub fn chars_of(s: &str) -> (out: Vec<char>)
    ensures
        out@ == s@,
{
    let mut out: Vec<char> = Vec::new();
    for c in it: s.chars()
        invariant
            out@ == it.seq().take(it.index()),
            it.seq() == s@,
    {
        out.push(c);
        assert(it.seq().take(it.index() + 1) =~= it.seq().take(it.index()).push(c));
    }
    assert(s@.take(s@.len() as int) =~= s@);
    out
}

/// The string made of the characters of `cs`.
pub fn text_of(cs: &[char]) -> (out: String)
    ensures
        out@ == cs@,
{
    let mut out = String::new();
    for i in 0..cs.len()
        invariant
            out@ == cs@.take(i as int),
    {
        out.push(cs[i]);
        assert(cs@.take(i + 1) =~= cs@.take(i as int).push(cs@[i as int]));
    }
    assert(cs@.take(cs@.len() as int) =~= cs@);
    out
}

/// A copy of an optional string.
pub fn copy_opt(o: &Option<String>) -> (out: Option<String>)
    ensures
        out == *o,
{
    match o {
        Some(s) => Some(s.clone()),
        None => None,
    }
}

/// The first of two optional strings that is present.
pub fn first_of(a: Option<String>, b: Option<String>) -> (out: Option<String>)
    ensures
        out == (if a is Some { a } else { b }),
{
    match a {
        Some(s) => Some(s),
        None => b,
    }
}

// ---------------------------------------------------------------------------
// Whitespace
// ---------------------------------------------------------------------------

/// The `White_Space` property of Unicode.
pub open spec fn is_whitespace(c: char) -> bool {
    ||| 0x9 <= c as u32 <= 0xd
    ||| c as u32 == 0x20
    ||| c as u32 == 0x85
    ||| c as u32 == 0xa0
    ||| c as u32 == 0x1680
    ||| 0x2000 <= c as u32 <= 0x200a
    ||| c as u32 == 0x2028
    ||| c as u32 == 0x2029
    ||| c as u32 == 0x202f
    ||| c as u32 == 0x205f
    ||| c as u32 == 0x3000
}

/// Whether `c` is white space.
pub fn char_is_whitespace(c: char) -> (yes: bool)
    ensures
        yes == is_whitespace(c),
{
    let n: u32 = c as u32;
    (0x9 <= n && n <= 0xd) || n == 0x20 || n == 0x85 || n == 0xa0 || n == 0x1680
        || (0x2000 <= n && n <= 0x200a) || n == 0x2028 || n == 0x2029 || n == 0x202f
        || n == 0x205f || n == 0x3000
}

/// `s` without its leading white space.
pub open spec fn trim_start(s: Seq<char>) -> Seq<char>
    decreases s.len(),
{
    if s.len() > 0 && is_whitespace(s[0]) {
        trim_start(s.drop_first())
    } else {
        s
    }
}

/// `s` without its trailing white space.
pub open spec fn trim_end(s: Seq<char>) -> Seq<char>
    decreases s.len(),
{
    if s.len() > 0 && is_whitespace(s.last()) {
        trim_end(s.drop_last())
    } else {
        s
    }
}

/// `s` without white space at either end.
pub open spec fn trim(s: Seq<char>) -> Seq<char> {
    trim_end(trim_start(s))
}

/// `s` without the trailing occurrences of `c`.
pub open spec fn trim_end_char(s: Seq<char>, c: char) -> Seq<char>
    decreases s.len(),
{
    if s.len() > 0 && s.last() == c {
        trim_end_char(s.drop_last(), c)
    } else {
        s
    }
}

/// `s` without its leading white space.
pub fn trimmed_start(s: &[char]) -> (out: &[char])
    ensures
        out@ == trim_start(s@),
{
    let mut i: usize = 0;
    assert(s@.skip(0) =~= s@);
    while i < s.len() && char_is_whitespace(s[i])
        invariant
            i <= s@.len(),
            trim_start(s@) == trim_start(s@.skip(i as int)),
        decreases s@.len() - i,
    {
        assert(s@.skip(i as int).drop_first() =~= s@.skip(i + 1));
        i = i + 1;
    }
    assert(s@.skip(i as int) =~= s@.subrange(i as int, s@.len() as int));
    slice_subrange(s, i, s.len())
}

/// `s` without white space at either end.
pub fn trimmed(s: &[char]) -> (out: &[char])
    ensures
        out@ == trim(s@),
{
    let t = trimmed_start(s);
    let mut n: usize = t.len();
    assert(t@.take(n as int) =~= t@);
    while n > 0 && char_is_whitespace(t[n - 1])
        invariant
            n <= t@.len(),
            trim_end(t@) == trim_end(t@.take(n as int)),
        decreases n,
    {
        assert(t@.take(n as int).drop_last() =~= t@.take(n - 1));
        n = n - 1;
    }
    assert(t@.take(n as int) =~= t@.subrange(0, n as int));
    slice_subrange(t, 0, n)
}

/// `s` without the trailing occurrences of `c`.
pub fn trimmed_end_char(s: &[char], c: char) -> (out: &[char])
    ensures
        out@ == trim_end_char(s@, c),
{
    let mut n: usize = s.len();
    assert(s@.take(n as int) =~= s@);
    while n > 0 && s[n - 1] == c
        invariant
            n <= s@.len(),
            trim_end_char(s@, c) == trim_end_char(s@.take(n as int), c),
        decreases n,
    {
        assert(s@.take(n as int).drop_last() =~= s@.take(n - 1));
        n = n - 1;
    }
    assert(s@.take(n as int) =~= s@.subrange(0, n as int));
    slice_subrange(s, 0, n)
}

// ---------------------------------------------------------------------------
// Case
// ---------------------------------------------------------------------------

/// `c` with an ASCII capital letter made small.
pub open spec fn ascii_lower(c: char) -> char {
    if 'A' <= c <= 'Z' {
        (c as u8 + 32) as u8 as char
    } else {
        c
    }
}

/// `c` with an ASCII small letter made capital.
pub open spec fn ascii_upper(c: char) -> char {
    if 'a' <= c <= 'z' {
        (c as u8 - 32) as u8 as char
    } else {
        c
    }
}

/// `c` with an ASCII capital letter made small.
pub fn char_ascii_lower(c: char) -> (out: char)
    ensures
        out == ascii_lower(c),
{
    if 'A' <= c && c <= 'Z' {
        ((c as u8) + 32) as char
    } else {
        c
    }
}

/// Equality up to the case of ASCII letters.
pub open spec fn eq_ignore_case(a: Seq<char>, b: Seq<char>) -> bool {
    a.map_values(|c: char| ascii_lower(c)) == b.map_values(|c: char| ascii_lower(c))
}

/// Whether two texts are equal up to the case of ASCII letters.
pub fn same_ignoring_case(a: &str, b: &str) -> (same: bool)
    ensures
        same == eq_ignore_case(a@, b@),
{
    let x = chars_of(a);
    let y = chars_of(b);
    let ghost fx = a@.map_values(|c: char| ascii_lower(c));
    let ghost fy = b@.map_values(|c: char| ascii_lower(c));
    if x.len() != y.len() {
        assert(fx.len() != fy.len());
        return false;
    }
    for i in 0..x.len()
        invariant
            x@ == a@,
            y@ == b@,
            x@.len() == y@.len(),
            fx == a@.map_values(|c: char| ascii_lower(c)),
            fy == b@.map_values(|c: char| ascii_lower(c)),
            forall|j: int| 0 <= j < i ==> fx[j] == fy[j],
    {
        if char_ascii_lower(x[i]) != char_ascii_lower(y[i]) {
            assert(fx[i as int] != fy[i as int]);
            return false;
        }
    }
    assert(fx =~= fy);
    true
}

/// The upper case of a text that is not ASCII, as `str::to_uppercase` gives it.
pub uninterp spec fn unicode_uppercase(s: Seq<char>) -> Seq<char>;

/// The lower case of a text that is not ASCII, as `str::to_lowercase` gives it.
pub uninterp spec fn unicode_lowercase(s: Seq<char>) -> Seq<char>;

/// `s` in upper case.
pub open spec fn upper(s: Seq<char>) -> Seq<char> {
    if vstd::utf8::is_ascii_chars(s) {
        s.map_values(|c: char| ascii_upper(c))
    } else {
        unicode_uppercase(s)
    }
}

/// `s` in lower case.
pub open spec fn lower(s: Seq<char>) -> Seq<char> {
    if vstd::utf8::is_ascii_chars(s) {
        s.map_values(|c: char| ascii_lower(c))
    } else {
        unicode_lowercase(s)
    }
}

/// `str::to_uppercase`. On ASCII text it capitalises the letters `a` to `z` and
/// keeps everything else; on other text the result is only named.
#[verifier::external_body]
pub(crate) fn uppercase(s: &str) -> (out: String)
    ensures
        vstd::utf8::is_ascii_chars(s@) ==> out@ == s@.map_values(|c: char| ascii_upper(c)),
        !vstd::utf8::is_ascii_chars(s@) ==> out@ == unicode_uppercase(s@),
{
    s.to_uppercase()
}

/// `str::to_lowercase`. On ASCII text it makes the letters `A` to `Z` small and
/// keeps everything else; on other text the result is only named.
#[verifier::external_body]
pub(crate) fn lowercase(s: &str) -> (out: String)
    ensures
        vstd::utf8::is_ascii_chars(s@) ==> out@ == s@.map_values(|c: char| ascii_lower(c)),
        !vstd::utf8::is_ascii_chars(s@) ==> out@ == unicode_lowercase(s@),
{
    s.to_lowercase()
}

/// `std::str::from_utf8`: the text that `bytes` encode, where they are UTF-8.
#[verifier::external_body]
pub(crate) fn utf8_text(bytes: &[u8]) -> (out: Option<String>)
    ensures
        match out {
            Some(s) => vstd::utf8::valid_utf8(bytes@) && s@ == vstd::utf8::decode_utf8(bytes@),
            None => !vstd::utf8::valid_utf8(bytes@),
        },
{
    match std::str::from_utf8(bytes) {
        Ok(s) => Some(s.to_string()),
        Err(_) => None,
    }
}

/// What `String::from_utf8_lossy` makes of bytes that are not UTF-8.
pub uninterp spec fn replaced_text(bytes: Seq<u8>) -> Seq<char>;

/// The text that `bytes` encode, with replacement characters where they are not UTF-8.
pub open spec fn lossy(bytes: Seq<u8>) -> Seq<char> {
    if vstd::utf8::valid_utf8(bytes) {
        vstd::utf8::decode_utf8(bytes)
    } else {
        replaced_text(bytes)
    }
}

/// `String::from_utf8_lossy`: the text that `bytes` encode, where they are UTF-8. Of
/// other bytes the result, with replacement characters, is only named.
#[verifier::external_body]
pub(crate) fn lossy_text(bytes: &[u8]) -> (out: String)
    ensures
        vstd::utf8::valid_utf8(bytes@) ==> out@ == vstd::utf8::decode_utf8(bytes@),
        !vstd::utf8::valid_utf8(bytes@) ==> out@ == replaced_text(bytes@),
{
    String::from_utf8_lossy(bytes).into_owned()
}

// ---------------------------------------------------------------------------
// Searching
// ---------------------------------------------------------------------------

/// The first index at or after `i` at which `c` stands, or the length.
pub open spec fn find_from(s: Seq<char>, c: char, i: int) -> int
    decreases s.len() - i,
{
    if i >= s.len() {
        s.len() as int
    } else if s[i] == c {
        i
    } else {
        find_from(s, c, i + 1)
    }
}

/// `find_from` is the least index at or after `i` that holds `c`.
pub proof fn lemma_find_from(s: Seq<char>, c: char, i: int)
    requires
        0 <= i <= s.len(),
    ensures
        i <= find_from(s, c, i) <= s.len(),
        forall|j: int| i <= j < find_from(s, c, i) ==> s[j] != c,
        find_from(s, c, i) < s.len() ==> s[find_from(s, c, i)] == c,
    decreases s.len() - i,
{
    if i < s.len() && s[i] != c {
        lemma_find_from(s, c, i + 1);
    }
}

/// An index with the properties of `find_from` is `find_from`.
pub proof fn lemma_find_from_is(s: Seq<char>, c: char, i: int, k: int)
    requires
        0 <= i <= k <= s.len(),
        forall|j: int| i <= j < k ==> s[j] != c,
        k < s.len() ==> s[k] == c,
    ensures
        find_from(s, c, i) == k,
{
    lemma_find_from(s, c, i);
}

/// The first index at or after `from` at which `c` stands, or the length.
pub fn index_from(s: &[char], c: char, from: usize) -> (at: usize)
    requires
        from <= s@.len(),
    ensures
        at == find_from(s@, c, from as int),
        from <= at <= s@.len(),
{
    let mut i: usize = from;
    while i < s.len() && s[i] != c
        invariant
            from <= i <= s@.len(),
            find_from(s@, c, from as int) == find_from(s@, c, i as int),
        decreases s@.len() - i,
    {
        i = i + 1;
    }
    i
}

/// The last index at which `c` stands before `n`.
pub open spec fn rfind_before(s: Seq<char>, c: char, n: int) -> Option<int>
    decreases n,
{
    if n <= 0 {
        None
    } else if s[n - 1] == c {
        Some(n - 1)
    } else {
        rfind_before(s, c, n - 1)
    }
}

/// The last index at which `c` stands.
pub open spec fn rfind(s: Seq<char>, c: char) -> Option<int> {
    rfind_before(s, c, s.len() as int)
}

/// The last index at which `c` stands.
pub fn last_index(s: &[char], c: char) -> (at: Option<usize>)
    ensures
        match at {
            Some(i) => i < s@.len() && rfind(s@, c) == Some(i as int),
            None => rfind(s@, c) is None,
        },
{
    let mut n: usize = s.len();
    while n > 0
        invariant
            n <= s@.len(),
            rfind(s@, c) == rfind_before(s@, c, n as int),
        decreases n,
    {
        if s[n - 1] == c {
            return Some(n - 1);
        }
        n = n - 1;
    }
    None
}

/// Whether `p` stands in `s` at index `i`.
pub open spec fn stands_at<T>(s: Seq<T>, p: Seq<T>, i: int) -> bool {
    0 <= i && i + p.len() <= s.len() && s.subrange(i, i + p.len()) == p
}

/// Whether `p` stands somewhere in `s`.
pub open spec fn contains_text(s: Seq<char>, p: Seq<char>) -> bool {
    exists|i: int| stands_at(s, p, i)
}

/// Whether `p` stands in `s` at index `i`.
pub fn matches_at(s: &[char], p: &[char], i: usize) -> (yes: bool)
    requires
        i <= s@.len(),
    ensures
        yes == stands_at(s@, p@, i as int),
{
    let n: usize = s.len();
    if p.len() > n - i {
        return false;
    }
    for j in 0..p.len()
        invariant
            n == s@.len(),
            i + p@.len() <= n,
            forall|k: int| 0 <= k < j ==> s@[i + k] == p@[k],
    {
        if s[i + j] != p[j] {
            assert(s@.subrange(i as int, i + p@.len())[j as int] != p@[j as int]);
            return false;
        }
    }
    assert(s@.subrange(i as int, i + p@.len()) =~= p@);
    true
}

/// Whether `p` stands somewhere in `s`.
pub fn has_text(s: &[char], p: &[char]) -> (yes: bool)
    ensures
        yes == contains_text(s@, p@),
{
    let mut i: usize = 0;
    loop
        invariant
            i <= s@.len(),
            forall|k: int| 0 <= k < i ==> !stands_at(s@, p@, k),
        decreases s@.len() - i,
    {
        if matches_at(s, p, i) {
            return true;
        }
        if i == s.len() {
            return false;
        }
        i = i + 1;
    }
}

/// The text after the prefix `p`, where `s` begins with it.
pub open spec fn strip_prefix(s: Seq<char>, p: Seq<char>) -> Option<Seq<char>> {
    if stands_at(s, p, 0) {
        Some(s.skip(p.len() as int))
    } else {
        None
    }
}

/// The text after the prefix `p`, where `s` begins with it.
pub fn without_prefix<'a>(s: &'a [char], p: &str) -> (out: Option<&'a [char]>)
    ensures
        match out {
            Some(r) => strip_prefix(s@, p@) == Some(r@),
            None => strip_prefix(s@, p@) is None,
        },
{
    let pre = chars_of(p);
    if matches_at(s, pre.as_slice(), 0) {
        assert(s@.subrange(pre@.len() as int, s@.len() as int) =~= s@.skip(p@.len() as int));
        Some(slice_subrange(s, pre.len(), s.len()))
    } else {
        None
    }
}

// ---------------------------------------------------------------------------
// Lines, parts and joins
// ---------------------------------------------------------------------------

/// `line` without one trailing carriage return.
pub open spec fn strip_cr(line: Seq<char>) -> Seq<char> {
    if line.len() > 0 && line.last() == '\r' {
        line.drop_last()
    } else {
        line
    }
}

/// The lines of `s` from index `i` on. A line ends at a line feed, or at a
/// carriage return and a line feed; the last one may end with the text.
pub open spec fn lines_from(s: Seq<char>, i: int) -> Seq<Seq<char>>
    decreases s.len() - i,
    when 0 <= i
{
    if i >= s.len() {
        Seq::empty()
    } else {
        let j = find_from(s, '\n', i);
        if i <= j < s.len() {
            seq![strip_cr(s.subrange(i, j))] + lines_from(s, j + 1)
        } else {
            seq![s.subrange(i, s.len() as int)]
        }
    }
}

/// The lines of `s`.
pub open spec fn lines(s: Seq<char>) -> Seq<Seq<char>> {
    lines_from(s, 0)
}

/// The lines of `s`.
pub fn split_lines(s: &[char]) -> (out: Vec<Vec<char>>)
    ensures
        rows(out@) == lines(s@),
{
    let mut out: Vec<Vec<char>> = Vec::new();
    let mut i: usize = 0;
    assert(rows(out@) + lines_from(s@, 0) =~= lines(s@));
    while i < s.len()
        invariant
            i <= s@.len(),
            rows(out@) + lines_from(s@, i as int) == lines(s@),
        decreases s@.len() - i,
    {
        let ghost before = rows(out@);
        let j = index_from(s, '\n', i);
        if j < s.len() {
            let mut end: usize = j;
            if end > i && s[end - 1] == '\r' {
                end = end - 1;
                assert(s@.subrange(i as int, j as int).drop_last() =~= s@.subrange(
                    i as int,
                    end as int,
                ));
            }
            let line = slice_to_vec(slice_subrange(s, i, end));
            assert(line@ == strip_cr(s@.subrange(i as int, j as int)));
            out.push(line);
            assert(rows(out@) =~= before.push(line@));
            assert(rows(out@) + lines_from(s@, j + 1) =~= before + (seq![line@] + lines_from(
                s@,
                j + 1,
            )));
            i = j + 1;
        } else {
            let line = slice_to_vec(slice_subrange(s, i, s.len()));
            out.push(line);
            assert(rows(out@) =~= before.push(line@));
            assert(rows(out@) + lines_from(s@, s@.len() as int) =~= before + seq![line@]);
            i = s.len();
        }
    }
    assert(rows(out@) + lines_from(s@, i as int) =~= rows(out@));
    out
}

/// A copy of the characters of a slice.
pub fn slice_to_vec(s: &[char]) -> (out: Vec<char>)
    ensures
        out@ == s@,
{
    let mut out: Vec<char> = Vec::new();
    for i in 0..s.len()
        invariant
            out@ == s@.take(i as int),
    {
        out.push(s[i]);
        assert(s@.take(i + 1) =~= s@.take(i as int).push(s@[i as int]));
    }
    assert(s@.take(s@.len() as int) =~= s@);
    out
}

/// The parts of `s` from index `i` on, between the occurrences of `c`.
pub open spec fn parts_from(s: Seq<char>, c: char, i: int) -> Seq<Seq<char>>
    decreases s.len() - i,
    when 0 <= i <= s.len()
{
    let j = find_from(s, c, i);
    if i <= j < s.len() {
        seq![s.subrange(i, j)] + parts_from(s, c, j + 1)
    } else {
        seq![s.subrange(i, s.len() as int)]
    }
}

/// The parts of `s` between the occurrences of `c`.
pub open spec fn parts(s: Seq<char>, c: char) -> Seq<Seq<char>> {
    parts_from(s, c, 0)
}

/// The parts of `s` between the occurrences of `c`.
pub fn split_parts(s: &[char], c: char) -> (out: Vec<Vec<char>>)
    ensures
        rows(out@) == parts(s@, c),
{
    let mut out: Vec<Vec<char>> = Vec::new();
    let mut i: usize = 0;
    assert(rows(out@) + parts_from(s@, c, 0) =~= parts(s@, c));
    loop
        invariant
            i <= s@.len(),
            rows(out@) + parts_from(s@, c, i as int) == parts(s@, c),
        decreases s@.len() - i,
    {
        let ghost before = rows(out@);
        let j = index_from(s, c, i);
        let part = slice_to_vec(slice_subrange(s, i, j));
        out.push(part);
        assert(rows(out@) =~= before.push(part@));
        if j < s.len() {
            assert(rows(out@) + parts_from(s@, c, j + 1) =~= before + (seq![part@] + parts_from(
                s@,
                c,
                j + 1,
            )));
            i = j + 1;
        } else {
            assert(rows(out@) =~= before + seq![part@]);
            return out;
        }
    }
}

/// The texts of a list with `sep` between them.
pub open spec fn join(list: Seq<Seq<char>>, sep: Seq<char>) -> Seq<char>
    decreases list.len(),
{
    if list.len() == 0 {
        Seq::empty()
    } else if list.len() == 1 {
        list[0]
    } else {
        join(list.drop_last(), sep) + sep + list.last()
    }
}

/// The texts of a list with `sep` between them.
pub fn joined(list: &[String], sep: &str) -> (out: String)
    ensures
        out@ == join(texts(list@), sep@),
{
    let mut out = String::new();
    for i in 0..list.len()
        invariant
            out@ == join(texts(list@).take(i as int), sep@),
    {
        proof {
            let next = texts(list@).take(i + 1);
            assert(next.drop_last() =~= texts(list@).take(i as int));
            assert(next.last() == list@[i as int]@);
        }
        if i > 0 {
            out.append(sep);
            out.append(list[i].as_str());
        } else {
            out.append(list[i].as_str());
            assert(out@ =~= list@[0]@);
        }
    }
    assert(texts(list@).take(list@.len() as int) =~= texts(list@));
    out
}

/// The texts of a list one after the other.
pub open spec fn concat(list: Seq<Seq<char>>) -> Seq<char>
    decreases list.len(),
{
    if list.len() == 0 {
        Seq::empty()
    } else {
        concat(list.drop_last()) + list.last()
    }
}

/// `concat` of two lists.
pub proof fn lemma_concat_add(a: Seq<Seq<char>>, b: Seq<Seq<char>>)
    ensures
        concat(a + b) == concat(a) + concat(b),
    decreases b.len(),
{
    if b.len() == 0 {
        assert(a + b =~= a);
        assert(concat(a) + concat(b) =~= concat(a));
    } else {
        assert((a + b).drop_last() =~= a + b.drop_last());
        lemma_concat_add(a, b.drop_last());
        assert(concat(a) + (concat(b.drop_last()) + b.last()) =~= (concat(a) + concat(
            b.drop_last(),
        )) + b.last());
    }
}

// ---------------------------------------------------------------------------
// Escaping for XML and HTML
// ---------------------------------------------------------------------------

/// What stands for `c` in escaped text.
pub open spec fn escape_char(c: char) -> Seq<char> {
    if c == '&' {
        "&amp;"@
    } else if c == '<' {
        "&lt;"@
    } else if c == '>' {
        "&gt;"@
    } else if c == '"' {
        "&quot;"@
    } else {
        seq![c]
    }
}

/// `s` with `&`, `<`, `>` and `"` replaced by entities.
pub open spec fn escape(s: Seq<char>) -> Seq<char>
    decreases s.len(),
{
    if s.len() == 0 {
        Seq::empty()
    } else {
        escape(s.drop_last()) + escape_char(s.last())
    }
}

/// Appends `s` to `buf`, escaped.
pub fn xml_escape(s: &str, buf: &mut String)
    ensures
        final(buf)@ == old(buf)@ + escape(s@),
{
    let cs = chars_of(s);
    assert(buf@ =~= buf@ + escape(s@.take(0)));
    for i in 0..cs.len()
        invariant
            cs@ == s@,
            buf@ == old(buf)@ + escape(s@.take(i as int)),
    {
        proof {
            let next = s@.take(i + 1);
            assert(next.drop_last() =~= s@.take(i as int));
            assert(old(buf)@ + (escape(s@.take(i as int)) + escape_char(s@[i as int])) =~= (old(
                buf,
            )@ + escape(s@.take(i as int))) + escape_char(s@[i as int]));
        }
        let c = cs[i];
        let ghost before = buf@;
        if c == '&' {
            buf.append("&amp;");
        } else if c == '<' {
            buf.append("&lt;");
        } else if c == '>' {
            buf.append("&gt;");
        } else if c == '"' {
            buf.append("&quot;");
        } else {
            buf.push(c);
            assert(buf@ =~= before + seq![c]);
        }
    }
    assert(s@.take(s@.len() as int) =~= s@);
}

/// `s`, escaped.
pub fn xe(s: &str) -> (out: String)
    ensures
        out@ == escape(s@),
{
    let mut out = String::new();
    xml_escape(s, &mut out);
    assert(out@ =~= escape(s@));
    out
}

/// The text that escaped text stands for: each entity as its character.
pub open spec fn unescape(s: Seq<char>) -> Seq<char>
    decreases s.len(),
{
    if s.len() == 0 {
        Seq::empty()
    } else if stands_at(s, "&amp;"@, 0) && s.len() >= 5 {
        seq!['&'] + unescape(s.skip(5))
    } else if stands_at(s, "&lt;"@, 0) && s.len() >= 4 {
        seq!['<'] + unescape(s.skip(4))
    } else if stands_at(s, "&gt;"@, 0) && s.len() >= 4 {
        seq!['>'] + unescape(s.skip(4))
    } else if stands_at(s, "&quot;"@, 0) && s.len() >= 6 {
        seq!['"'] + unescape(s.skip(6))
    } else {
        seq![s[0]] + unescape(s.skip(1))
    }
}

/// Escaped text begins with what stands for the first character.
proof fn lemma_escape_first(s: Seq<char>)
    requires
        s.len() > 0,
    ensures
        escape(s) == escape_char(s[0]) + escape(s.skip(1)),
    decreases s.len(),
{
    if s.len() == 1 {
        assert(s.drop_last() =~= Seq::empty());
        assert(s.skip(1) =~= Seq::empty());
        assert(escape(s) =~= escape_char(s[0]) + escape(s.skip(1)));
    } else {
        lemma_escape_first(s.drop_last());
        assert(s.drop_last().skip(1) =~= s.skip(1).drop_last());
        assert(escape(s) =~= escape_char(s[0]) + escape(s.skip(1)));
    }
}

/// Escaped text reads back as the text that was escaped, so no two texts share one
/// escaped form.
pub proof fn law_escape_reads_back(s: Seq<char>)
    ensures
        unescape(escape(s)) == s,
    decreases s.len(),
{
    reveal_strlit("&amp;");
    reveal_strlit("&lt;");
    reveal_strlit("&gt;");
    reveal_strlit("&quot;");
    if s.len() > 0 {
        let c = s[0];
        let head = escape_char(c);
        let rest = escape(s.skip(1));
        let all = escape(s);
        lemma_escape_first(s);
        law_escape_reads_back(s.skip(1));
        assert(all == head + rest);
        assert(all.subrange(0, head.len() as int) =~= head);
        assert(all.skip(head.len() as int) =~= rest);
        assert(s =~= seq![c] + s.skip(1));
        if c == '&' {
        } else if c == '<' {
            assert(all[1] == 'l');
            assert(all.len() >= 5 ==> all.subrange(0, 5)[1] == 'l');
        } else if c == '>' {
            assert(all[1] == 'g');
            assert(all.len() >= 5 ==> all.subrange(0, 5)[1] == 'g');
            assert(all.subrange(0, 4)[1] == 'g');
        } else if c == '"' {
            assert(all[1] == 'q');
            assert(all.subrange(0, 5)[1] == 'q');
            assert(all.subrange(0, 4)[1] == 'q');
        } else {
            assert(all[0] == c);
            assert(all.len() >= 4 ==> all.subrange(0, 4)[0] == c);
            assert(all.len() >= 5 ==> all.subrange(0, 5)[0] == c);
            assert(all.len() >= 6 ==> all.subrange(0, 6)[0] == c);
        }
    }
}

/// Escaped text holds no angle bracket and no quotation mark.
pub proof fn law_escape_is_clean(s: Seq<char>)
    ensures
        !escape(s).contains('<'),
        !escape(s).contains('>'),
        !escape(s).contains('"'),
    decreases s.len(),
{
    reveal_strlit("&amp;");
    reveal_strlit("&lt;");
    reveal_strlit("&gt;");
    reveal_strlit("&quot;");
    if s.len() > 0 {
        law_escape_is_clean(s.drop_last());
        let before = escape(s.drop_last());
        let now = escape(s);
        let last = escape_char(s.last());
        assert forall|i: int| 0 <= i < now.len() implies now[i] != '<' && now[i] != '>' && now[i]
            != '"' by {
            if i < before.len() {
                assert(before.contains(before[i]));
            } else {
                assert(now[i] == last[i - before.len()]);
            }
        }
    }
}

} // verus!
