//! Searching and copying sequences of bytes.
use vstd::prelude::*;
use vstd::slice::slice_subrange;

use crate::text::stands_at;

verus! {

/// The first index at or after `i` at which `p` stands in `s`.
pub open spec fn find_bytes_from(s: Seq<u8>, p: Seq<u8>, i: int) -> Option<int>
    decreases s.len() - i,
{
    if i + p.len() > s.len() || i >= s.len() {
        None
    } else if stands_at(s, p, i) {
        Some(i)
    } else {
        find_bytes_from(s, p, i + 1)
    }
}

/// The first index at which `p` stands in `s`.
pub open spec fn find_bytes(s: Seq<u8>, p: Seq<u8>) -> Option<int> {
    find_bytes_from(s, p, 0)
}

/// Whether `p` stands in `s` at index `i`.
pub fn bytes_at(s: &[u8], p: &[u8], i: usize) -> (yes: bool)
    requires
        i <= s@.len(),
    ensures
        yes == stands_at(s@, p@, i as int),
{
    let n: usize = s.len();
    if p.len() > n - i {
        return false;
    }
    for j in 0..p.len()
        invariant
            n == s@.len(),
            i + p@.len() <= n,
            forall|k: int| 0 <= k < j ==> s@[i + k] == p@[k],
    {
        if s[i + j] != p[j] {
            assert(s@.subrange(i as int, i + p@.len())[j as int] != p@[j as int]);
            return false;
        }
    }
    assert(s@.subrange(i as int, i + p@.len()) =~= p@);
    true
}

/// The first index at or after `from` at which `p` stands in `s`.
pub fn index_of_bytes(s: &[u8], p: &[u8], from: usize) -> (at: Option<usize>)
    requires
        from <= s@.len(),
        p@.len() > 0,
    ensures
        match at {
            Some(i) => find_bytes_from(s@, p@, from as int) == Some(i as int) && from <= i && i
                + p@.len() <= s@.len() && stands_at(s@, p@, i as int),
            None => find_bytes_from(s@, p@, from as int) is None,
        },
{
    let n: usize = s.len();
    let mut i: usize = from;
    while i < n && p.len() <= n - i
        invariant
            n == s@.len(),
            from <= i <= n,
            find_bytes_from(s@, p@, from as int) == find_bytes_from(s@, p@, i as int),
        decreases n - i,
    {
        if bytes_at(s, p, i) {
            return Some(i);
        }
        i = i + 1;
    }
    None
}

/// Return the byte offset of `needle` within `haystack`, or `None`.
pub fn find_subsequence(haystack: &[u8], needle: &[u8]) -> (at: Option<usize>)
    requires
        needle@.len() > 0,
    ensures
        match at {
            Some(i) => find_bytes(haystack@, needle@) == Some(i as int) && i + needle@.len()
                <= haystack@.len() && stands_at(haystack@, needle@, i as int),
            None => find_bytes(haystack@, needle@) is None,
        },
{
    index_of_bytes(haystack, needle, 0)
}

/// A copy of the bytes of a slice.
pub fn copy_bytes(s: &[u8]) -> (out: Vec<u8>)
    ensures
        out@ == s@,
{
    let mut out: Vec<u8> = Vec::new();
    for i in 0..s.len()
        invariant
            out@ == s@.take(i as int),
    {
        out.push(s[i]);
        assert(s@.take(i + 1) =~= s@.take(i as int).push(s@[i as int]));
    }
    assert(s@.take(s@.len() as int) =~= s@);
    out
}

/// The characters of bytes, each the character with the number of the byte.
pub open spec fn latin_chars(s: Seq<u8>) -> Seq<char> {
    s.map_values(|b: u8| b as char)
}

/// The text of bytes, each the character with the number of the byte.
pub fn latin_text(s: &[u8]) -> (out: String)
    ensures
        out@ == latin_chars(s@),
{
    let mut out = String::new();
    for i in 0..s.len()
        invariant
            out@ == latin_chars(s@).take(i as int),
    {
        out.push(s[i] as char);
        assert(latin_chars(s@).take(i + 1) =~= latin_chars(s@).take(i as int).push(
            s@[i as int] as char,
        ));
    }
    assert(latin_chars(s@).take(s@.len() as int) =~= latin_chars(s@));
    out
}

// ---------------------------------------------------------------------------
// Buffers with a zero byte at the end of their content
// ---------------------------------------------------------------------------

/// The index of the first zero byte, or the length.
pub open spec fn zero_from(s: Seq<u8>, i: int) -> int
    decreases s.len() - i,
{
    if i >= s.len() {
        s.len() as int
    } else if s[i] == 0 {
        i
    } else {
        zero_from(s, i + 1)
    }
}

/// The bytes before the first zero byte, or all.
pub fn until_zero(buf: &[u8]) -> (out: &[u8])
    ensures
        out@ == buf@.take(zero_from(buf@, 0)),
{
    let n: usize = buf.len();
    let mut end: usize = 0;
    while end < n && buf[end] != 0
        invariant
            n == buf@.len(),
            end <= n,
            zero_from(buf@, 0) == zero_from(buf@, end as int),
        decreases n - end,
    {
        end = end + 1;
    }
    let head = slice_subrange(buf, 0, end);
    assert(head@ =~= buf@.take(end as int));
    head
}

} // verus!
