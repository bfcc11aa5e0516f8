//! Base64 text of binary state blobs.
use vstd::arithmetic::div_mod::lemma_fundamental_div_mod_converse;
use vstd::prelude::*;

use crate::text::{chars_of, find_from, lemma_find_from, lemma_find_from_is};

verus! {

// ---------------------------------------------------------------------------
// Alphabet
// ---------------------------------------------------------------------------

/// The character that writes the six-bit value `v`.
pub open spec fn sextet_char(v: int) -> char {
    if v < 26 {
        (v + 65) as u8 as char
    } else if v < 52 {
        (v + 71) as u8 as char
    } else if v < 62 {
        (v - 4) as u8 as char
    } else if v == 62 {
        '+'
    } else {
        '/'
    }
}

/// The six-bit value that `c` writes.
pub open spec fn char_sextet(c: char) -> Option<int> {
    if 'A' <= c <= 'Z' {
        Some(c as int - 65)
    } else if 'a' <= c <= 'z' {
        Some(c as int - 71)
    } else if '0' <= c <= '9' {
        Some(c as int + 4)
    } else if c == '+' {
        Some(62)
    } else if c == '/' {
        Some(63)
    } else {
        None
    }
}

/// The characters that may stand between the others without meaning.
pub open spec fn is_filler(c: char) -> bool {
    c == '\n' || c == '\r' || c == ' ' || c == '\t'
}

// ---------------------------------------------------------------------------
// Encoding
// ---------------------------------------------------------------------------

/// The byte at `i`, or zero past the end.
pub open spec fn byte_or_zero(data: Seq<u8>, i: int) -> int {
    if 0 <= i < data.len() {
        data[i] as int
    } else {
        0
    }
}

/// How many six-bit groups the bits of `len` bytes fill.
pub open spec fn sextet_count(len: int) -> int {
    (4 * len + 2) / 3
}

/// The six-bit group at position `k` of the bits of `data`.
pub open spec fn sextet(data: Seq<u8>, k: int) -> int {
    let at = 3 * (k / 4);
    if k % 4 == 0 {
        byte_or_zero(data, at) / 4
    } else if k % 4 == 1 {
        byte_or_zero(data, at) % 4 * 16 + byte_or_zero(data, at + 1) / 16
    } else if k % 4 == 2 {
        byte_or_zero(data, at + 1) % 16 * 4 + byte_or_zero(data, at + 2) / 64
    } else {
        byte_or_zero(data, at + 2) % 64
    }
}

/// The base64 text of `data`: one character for each six-bit group, then `=` up
/// to a multiple of four.
pub open spec fn encode(data: Seq<u8>) -> Seq<char> {
    Seq::new(
        (4 * ((data.len() + 2) / 3)) as nat,
        |k: int|
            if k < sextet_count(data.len() as int) {
                sextet_char(sextet(data, k))
            } else {
                '='
            },
    )
}

/// The character that writes the six-bit value `v`.
fn alphabet(v: u8) -> (c: char)
    requires
        v < 64,
    ensures
        c == sextet_char(v as int),
{
    if v < 26 {
        (v + 65) as char
    } else if v < 52 {
        (v + 71) as char
    } else if v < 62 {
        (v - 4) as char
    } else if v == 62 {
        '+'
    } else {
        '/'
    }
}

/// The base64 text of `data`.
pub fn base64_encode(data: &[u8]) -> (out: String)
    ensures
        out@ == encode(data@),
{
    let mut out = String::new();
    let mut i: usize = 0;
    let ghost mut groups: int = 0;
    while i < data.len()
        invariant
            i == 3 * groups || (i == data@.len() && 3 * (groups - 1) < i <= 3 * groups),
            0 <= groups,
            i <= data@.len(),
            out@ == encode(data@).take(4 * groups),
            4 * groups <= encode(data@).len(),
        decreases data@.len() - i,
    {
        let left: usize = data.len() - i;
        let b0: u8 = data[i];
        let b1: u8 = if left > 1 {
            data[i + 1]
        } else {
            0
        };
        let b2: u8 = if left > 2 {
            data[i + 2]
        } else {
            0
        };
        let c0 = alphabet(b0 / 4);
        let c1 = alphabet(b0 % 4 * 16 + b1 / 16);
        let c2 = if left > 1 {
            alphabet(b1 % 16 * 4 + b2 / 64)
        } else {
            '='
        };
        let c3 = if left > 2 {
            alphabet(b2 % 64)
        } else {
            '='
        };
        out.push(c0);
        out.push(c1);
        out.push(c2);
        out.push(c3);
        proof {
            let whole = encode(data@);
            let k = 4 * groups;
            assert(k % 4 == 0 && (k + 1) % 4 == 1 && (k + 2) % 4 == 2 && (k + 3) % 4 == 3);
            assert(k / 4 == groups && (k + 1) / 4 == groups && (k + 2) / 4 == groups && (k + 3) / 4
                == groups);
            assert(whole[k] == c0);
            assert(whole[k + 1] == c1);
            assert(whole[k + 2] == c2);
            assert(whole[k + 3] == c3);
            assert(out@ =~= whole.take(k + 4));
            groups = groups + 1;
        }
        i = if left > 3 {
            i + 3
        } else {
            data.len()
        };
    }
    assert(out@ =~= encode(data@));
    out
}

// ---------------------------------------------------------------------------
// Decoding
// ---------------------------------------------------------------------------

/// The six-bit values that `s` writes, fillers left out. `None` where another
/// character stands in `s`.
pub open spec fn sextets(s: Seq<char>) -> Option<Seq<int>>
    decreases s.len(),
{
    if s.len() == 0 {
        Some(Seq::empty())
    } else {
        match sextets(s.drop_last()) {
            None => None,
            Some(v) => if is_filler(s.last()) {
                Some(v)
            } else {
                match char_sextet(s.last()) {
                    Some(x) => Some(v.push(x)),
                    None => None,
                }
            },
        }
    }
}

/// The byte at position `i` of the bits of the six-bit values `v`.
pub open spec fn byte_of(v: Seq<int>, i: int) -> u8 {
    let at = 4 * (i / 3);
    if i % 3 == 0 {
        (v[at] * 4 + v[at + 1] / 16) as u8
    } else if i % 3 == 1 {
        (v[at + 1] % 16 * 16 + v[at + 2] / 4) as u8
    } else {
        (v[at + 2] % 4 * 64 + v[at + 3]) as u8
    }
}

/// The whole bytes that the bits of the six-bit values `v` fill.
pub open spec fn bytes_of(v: Seq<int>) -> Seq<u8> {
    Seq::new((3 * v.len() / 4) as nat, |i: int| byte_of(v, i))
}

/// The bytes that the text `s` writes: what stands before the first `=`. `None`
/// where a character stands there that is neither of the alphabet nor a filler.
pub open spec fn decode(s: Seq<char>) -> Option<Seq<u8>> {
    match sextets(s.take(find_from(s, '=', 0))) {
        Some(v) => Some(bytes_of(v)),
        None => None,
    }
}

/// The six-bit value that `c` writes.
fn value_of(c: char) -> (v: Option<u8>)
    ensures
        match v {
            Some(x) => x < 64 && char_sextet(c) == Some(x as int),
            None => char_sextet(c) is None,
        },
{
    if 'A' <= c && c <= 'Z' {
        Some((c as u8) - 65)
    } else if 'a' <= c && c <= 'z' {
        Some((c as u8) - 71)
    } else if '0' <= c && c <= '9' {
        Some((c as u8) + 4)
    } else if c == '+' {
        Some(62)
    } else if c == '/' {
        Some(63)
    } else {
        None
    }
}

/// Where a prefix holds a foreign character, so does the text.
proof fn lemma_sextets_prefix(s: Seq<char>, n: int)
    requires
        0 <= n <= s.len(),
        sextets(s.take(n)) is None,
    ensures
        sextets(s) is None,
    decreases s.len(),
{
    if n < s.len() {
        assert(s.drop_last().take(n) =~= s.take(n));
        lemma_sextets_prefix(s.drop_last(), n);
    } else {
        assert(s.take(n) =~= s);
    }
}

/// Every value of `sextets` fits in six bits.
proof fn lemma_sextets_range(s: Seq<char>)
    ensures
        sextets(s) matches Some(v) ==> forall|i: int| 0 <= i < v.len() ==> 0 <= #[trigger] v[i] < 64,
    decreases s.len(),
{
    if s.len() > 0 {
        lemma_sextets_range(s.drop_last());
    }
}

/// The bytes that the base64 text `s` writes.
pub fn b64_decode(s: &str) -> (out: Option<Vec<u8>>)
    ensures
        match out {
            Some(b) => decode(s@) == Some(b@),
            None => decode(s@) is None,
        },
{
    let cs = chars_of(s);
    let mut vals: Vec<u8> = Vec::new();
    let mut i: usize = 0;
    let ghost end = find_from(s@, '=', 0);
    let ghost body = s@.take(end);
    proof {
        lemma_find_from(s@, '=', 0);
        assert(s@.take(0) =~= Seq::<char>::empty());
        assert(vals@.map_values(|x: u8| x as int) =~= Seq::<int>::empty());
    }
    while i < cs.len() && cs[i] != '='
        invariant
            cs@ == s@,
            end == find_from(s@, '=', 0),
            body == s@.take(end),
            0 <= end <= s@.len(),
            forall|j: int| 0 <= j < end ==> s@[j] != '=',
            end < s@.len() ==> s@[end] == '=',
            i <= end,
            sextets(s@.take(i as int)) == Some(vals@.map_values(|x: u8| x as int)),
        decreases cs@.len() - i,
    {
        let c = cs[i];
        proof {
            let next = s@.take(i + 1);
            assert(next.drop_last() =~= s@.take(i as int));
            assert(body.take(i + 1) =~= next);
        }
        if c == '\n' || c == '\r' || c == ' ' || c == '\t' {
            i = i + 1;
            continue;
        }
        match value_of(c) {
            Some(v) => {
                let ghost before = vals@.map_values(|x: u8| x as int);
                vals.push(v);
                assert(vals@.map_values(|x: u8| x as int) =~= before.push(v as int));
            },
            None => {
                proof {
                    lemma_sextets_prefix(body, i + 1);
                }
                return None;
            },
        }
        i = i + 1;
    }
    let ghost v = vals@.map_values(|x: u8| x as int);
    proof {
        assert(i == end);
        lemma_sextets_range(body);
    }
    let mut out: Vec<u8> = Vec::new();
    let mut k: usize = 0;
    let ghost mut groups: int = 0;
    while k < vals.len()
        invariant
            0 <= groups,
            k == 4 * groups || (k == vals@.len() && 4 * (groups - 1) < k < 4 * groups),
            k <= vals@.len(),
            v == vals@.map_values(|x: u8| x as int),
            forall|j: int| 0 <= j < v.len() ==> 0 <= #[trigger] v[j] < 64,
            k == 4 * groups ==> out@ == bytes_of(v).take(3 * groups) && 3 * groups
                <= bytes_of(v).len(),
            k != 4 * groups ==> out@ == bytes_of(v),
        decreases vals@.len() - k,
    {
        let left: usize = vals.len() - k;
        let ghost whole = bytes_of(v);
        proof {
            let a = 3 * groups;
            assert(a % 3 == 0 && (a + 1) % 3 == 1 && (a + 2) % 3 == 2);
            assert(a / 3 == groups && (a + 1) / 3 == groups && (a + 2) / 3 == groups);
            assert(v[k as int] == vals@[k as int]);
        }
        if left > 1 {
            assert(v[k + 1] == vals@[k + 1]);
            out.push(vals[k] * 4 + vals[k + 1] / 16);
        }
        if left > 2 {
            assert(v[k + 2] == vals@[k + 2]);
            out.push(vals[k + 1] % 16 * 16 + vals[k + 2] / 4);
        }
        if left > 3 {
            assert(v[k + 3] == vals@[k + 3]);
            out.push(vals[k + 2] % 4 * 64 + vals[k + 3]);
            assert(out@ =~= whole.take(3 * groups + 3));
            k = k + 4;
        } else {
            assert(out@ =~= whole);
            k = vals.len();
        }
        proof {
            groups = groups + 1;
        }
    }
    assert(out@ =~= bytes_of(v));
    Some(out)
}

// ---------------------------------------------------------------------------
// Laws
// ---------------------------------------------------------------------------

/// The six-bit groups of `data` come back from the characters that write them.
proof fn lemma_sextets_of_encode(data: Seq<u8>, n: int)
    requires
        0 <= n <= sextet_count(data.len() as int),
    ensures
        sextets(encode(data).take(n)) == Some(Seq::new(n as nat, |k: int| sextet(data, k))),
    decreases n,
{
    if n == 0 {
        assert(encode(data).take(0) =~= Seq::<char>::empty());
        assert(Seq::new(0, |k: int| sextet(data, k)) =~= Seq::<int>::empty());
    } else {
        lemma_sextets_of_encode(data, n - 1);
        let s = encode(data).take(n);
        assert(s.drop_last() =~= encode(data).take(n - 1));
        let x = sextet(data, n - 1);
        assert(0 <= x < 64);
        assert(s.last() == sextet_char(x));
        assert(Seq::new((n - 1) as nat, |k: int| sextet(data, k)).push(x) =~= Seq::new(
            n as nat,
            |k: int| sextet(data, k),
        ));
    }
}

/// Three bytes come back from their four six-bit groups.
proof fn lemma_group(b0: int, b1: int, b2: int)
    requires
        0 <= b0 < 256,
        0 <= b1 < 256,
        0 <= b2 < 256,
    ensures
        (b0 / 4) * 4 + (b0 % 4 * 16 + b1 / 16) / 16 == b0,
        (b0 % 4 * 16 + b1 / 16) % 16 * 16 + (b1 % 16 * 4 + b2 / 64) / 4 == b1,
        (b1 % 16 * 4 + b2 / 64) % 4 * 64 + b2 % 64 == b2,
{
}

/// Each byte of `data` comes back from the six-bit groups of `data`.
proof fn lemma_byte_of_sextets(data: Seq<u8>, i: int)
    requires
        0 <= i < data.len(),
    ensures
        byte_of(
            Seq::new(sextet_count(data.len() as int) as nat, |k: int| sextet(data, k)),
            i,
        ) == data[i],
{
    let q = i / 3;
    let at = 4 * q;
    assert(at / 4 == q && (at + 1) / 4 == q && (at + 2) / 4 == q && (at + 3) / 4 == q);
    assert(at % 4 == 0 && (at + 1) % 4 == 1 && (at + 2) % 4 == 2 && (at + 3) % 4 == 3);
    let b0 = byte_or_zero(data, 3 * q);
    let b1 = byte_or_zero(data, 3 * q + 1);
    let b2 = byte_or_zero(data, 3 * q + 2);
    assert(sextet(data, at) == b0 / 4);
    assert(sextet(data, at + 1) == b0 % 4 * 16 + b1 / 16);
    assert(sextet(data, at + 2) == b1 % 16 * 4 + b2 / 64);
    assert(sextet(data, at + 3) == b2 % 64);
    lemma_group(b0, b1, b2);
    let n = sextet_count(data.len() as int);
    let v = Seq::new(n as nat, |k: int| sextet(data, k));
    assert(at + 1 < n);
    if i % 3 == 0 {
        assert(i == 3 * q);
        assert(v[at] == sextet(data, at) && v[at + 1] == sextet(data, at + 1));
    } else if i % 3 == 1 {
        assert(i == 3 * q + 1);
        assert(at + 2 < n);
        assert(v[at + 1] == sextet(data, at + 1) && v[at + 2] == sextet(data, at + 2));
    } else {
        assert(i == 3 * q + 2);
        assert(at + 3 < n);
        assert(v[at + 2] == sextet(data, at + 2) && v[at + 3] == sextet(data, at + 3));
    }
}

/// Decoding gives back what was encoded.
pub proof fn law_decode_encode(data: Seq<u8>)
    ensures
        decode(encode(data)) == Some(data),
{
    let s = encode(data);
    let n = sextet_count(data.len() as int);
    lemma_sextets_of_encode(data, n);
    let v = Seq::new(n as nat, |k: int| sextet(data, k));
    assert forall|j: int| 0 <= j < n implies s[j] != '=' by {
        assert(0 <= sextet(data, j) < 64);
    }
    lemma_find_from_is(s, '=', 0, n);
    assert forall|i: int| 0 <= i < data.len() implies byte_of(v, i) == data[i] by {
        lemma_byte_of_sextets(data, i);
    }
    assert(bytes_of(v) =~= data);
}

/// A text without its fillers.
pub open spec fn solid(s: Seq<char>) -> Seq<char>
    decreases s.len(),
{
    if s.len() == 0 {
        Seq::empty()
    } else if is_filler(s.last()) {
        solid(s.drop_last())
    } else {
        solid(s.drop_last()).push(s.last())
    }
}

/// Two texts without their fillers.
proof fn lemma_solid_add(a: Seq<char>, b: Seq<char>)
    ensures
        solid(a + b) == solid(a) + solid(b),
    decreases b.len(),
{
    if b.len() == 0 {
        assert(a + b =~= a);
        assert(solid(a) + solid(b) =~= solid(a));
    } else {
        lemma_solid_add(a, b.drop_last());
        assert((a + b).drop_last() =~= a + b.drop_last());
        assert((a + b).last() == b.last());
        assert(solid(a + b) =~= solid(a) + solid(b));
    }
}

/// Fillers write no six-bit value, and a character that a text lacks stands in none of
/// its parts.
proof fn lemma_sextets_of_solid(s: Seq<char>)
    ensures
        sextets(solid(s)) == sextets(s),
        (forall|i: int| 0 <= i < s.len() ==> s[i] != '=') ==> forall|i: int|
            0 <= i < solid(s).len() ==> solid(s)[i] != '=',
    decreases s.len(),
{
    if s.len() > 0 {
        lemma_sextets_of_solid(s.drop_last());
        let before = solid(s.drop_last());
        assert(forall|i: int| 0 <= i < s.len() - 1 ==> s.drop_last()[i] == s[i]);
        assert(before.push(s.last()).drop_last() =~= before);
        assert(solid(s).len() <= before.len() + 1);
    }
}

/// What a text writes does not depend on its fillers.
pub proof fn law_decode_without_fillers(s: Seq<char>)
    ensures
        decode(solid(s)) == decode(s),
{
    let end = find_from(s, '=', 0);
    lemma_find_from(s, '=', 0);
    let head = s.take(end);
    let rest = s.skip(end);
    assert(s =~= head + rest);
    lemma_solid_add(head, rest);
    lemma_sextets_of_solid(head);
    let n = solid(head).len() as int;
    if rest.len() > 0 {
        let more = rest.skip(1);
        assert(rest =~= seq!['='] + more);
        lemma_solid_add(seq!['='], more);
        assert(solid(seq!['='].drop_last()) =~= Seq::empty());
        assert(seq!['='].last() == '=');
        assert(solid(seq!['=']) =~= seq!['=']);
        assert(solid(s)[n] == '=');
    }
    assert forall|j: int| 0 <= j < n implies solid(s)[j] != '=' by {
        assert(solid(s)[j] == solid(head)[j]);
    }
    lemma_find_from_is(solid(s), '=', 0, n);
    assert(solid(s).take(n) =~= solid(head));
}

/// Decoding an encoded text into which line breaks, spaces or tabs were put gives back
/// what was encoded.
pub proof fn law_decode_spread_text(data: Seq<u8>, s: Seq<char>)
    requires
        solid(s) == encode(data),
    ensures
        decode(s) == Some(data),
{
    law_decode_without_fillers(s);
    law_decode_encode(data);
}

/// The text of `data` has four characters for every three bytes, rounded up.
pub proof fn law_encode_length(data: Seq<u8>)
    ensures
        encode(data).len() == 4 * ((data.len() + 2) / 3),
        encode(data).len() % 4 == 0,
{
}

/// The alphabet is that of RFC 4648.
pub proof fn law_alphabet(v: int)
    requires
        0 <= v < 64,
    ensures
        sextet_char(v)
            == "ABCDEFGHIJKLMNOPQRSTUVWXYZabcdefghijklmnopqrstuvwxyz0123456789+/"@[v],
        char_sextet(sextet_char(v)) == Some(v),
{
    reveal_strlit("ABCDEFGHIJKLMNOPQRSTUVWXYZabcdefghijklmnopqrstuvwxyz0123456789+/");
}

/// Three bytes are written as four characters: their bits in groups of six, highest first.
pub proof fn law_encode_three(a: u8, b: u8, c: u8, rest: Seq<u8>)
    ensures
        ({
            let n = a * 0x1_0000 + b * 0x100 + c;
            encode(seq![a, b, c] + rest) == seq![
                sextet_char(n / 0x4_0000),
                sextet_char(n / 0x1000 % 64),
                sextet_char(n / 64 % 64),
                sextet_char(n % 64),
            ] + encode(rest)
        }),
{
    let data = seq![a, b, c] + rest;
    let n = a * 0x1_0000 + b * 0x100 + c;
    let head = seq![
        sextet_char(n / 0x4_0000),
        sextet_char(n / 0x1000 % 64),
        sextet_char(n / 64 % 64),
        sextet_char(n % 64),
    ];
    lemma_group_bits(a as int, b as int, c as int, n);
    let left = encode(data);
    let right = head + encode(rest);
    assert(left.len() == right.len());
    assert forall|k: int| 0 <= k < left.len() implies left[k] == right[k] by {
        if k >= 4 {
            let j = k - 4;
            assert(k / 4 == j / 4 + 1 && k % 4 == j % 4);
            let at = 3 * (j / 4);
            assert(byte_or_zero(data, at + 3) == byte_or_zero(rest, at));
            assert(byte_or_zero(data, at + 4) == byte_or_zero(rest, at + 1));
            assert(byte_or_zero(data, at + 5) == byte_or_zero(rest, at + 2));
            assert(sextet(data, k) == sextet(rest, j));
        } else {
            assert(k == 0 || k == 1 || k == 2 || k == 3);
        }
    }
    assert(left =~= right);
}

proof fn lemma_group_bits(a: int, b: int, c: int, n: int)
    requires
        0 <= a < 256,
        0 <= b < 256,
        0 <= c < 256,
        n == a * 0x1_0000 + b * 0x100 + c,
    ensures
        n / 0x4_0000 == a / 4,
        n / 0x1000 % 64 == a % 4 * 16 + b / 16,
        n / 64 % 64 == b % 16 * 4 + c / 64,
        n % 64 == c % 64,
{
    lemma_fundamental_div_mod_converse(
        n,
        0x4_0000,
        a / 4,
        a % 4 * 0x1_0000 + b * 0x100 + c,
    );
    lemma_fundamental_div_mod_converse(n, 0x1000, a * 16 + b / 16, b % 16 * 0x100 + c);
    lemma_fundamental_div_mod_converse(a * 16 + b / 16, 64, a / 4, a % 4 * 16 + b / 16);
    lemma_fundamental_div_mod_converse(n, 64, a * 0x400 + b * 4 + c / 64, c % 64);
    lemma_fundamental_div_mod_converse(
        a * 0x400 + b * 4 + c / 64,
        64,
        a * 16 + b / 16,
        b % 16 * 4 + c / 64,
    );
}

} // verus!
