//! What holds of the operations on texts.
use vstd::prelude::*;

use crate::text::{
    concat, contains_text, eq_ignore_case, escape, escape_char, find_from, is_whitespace, join,
    lemma_find_from, lemma_find_from_is, lines, lines_from, lower, parts, parts_from, rfind,
    rfind_before, stands_at, strip_cr, strip_prefix, trim, trim_end, trim_end_char, trim_start,
    upper,
};

verus! {

/// Every character of the text is white space.
pub open spec fn is_blank(s: Seq<char>) -> bool {
    forall|i: int| 0 <= i < s.len() ==> is_whitespace(#[trigger] s[i])
}

/// The text is empty, or begins and ends with something else than white space.
pub open spec fn is_bounded(s: Seq<char>) -> bool {
    s.len() == 0 || (!is_whitespace(s[0]) && !is_whitespace(s[s.len() - 1]))
}

/// White space is what Unicode calls so: the space, the tab, the ends of lines and pages,
/// and the spaces of other widths. No character that is seen in ASCII is.
pub proof fn law_whitespace(c: char)
    ensures
        c == ' ' || c == '\t' || c == '\n' || c == '\r' ==> is_whitespace(c),
        '!' <= c <= '~' ==> !is_whitespace(c),
        c as u32 <= 8 ==> !is_whitespace(c),
        is_whitespace(c) <==> {
            ||| c == '\u{9}' || c == '\u{a}' || c == '\u{b}' || c == '\u{c}' || c == '\u{d}'
            ||| c == '\u{20}' || c == '\u{85}' || c == '\u{a0}' || c == '\u{1680}'
            ||| c == '\u{2000}' || c == '\u{2001}' || c == '\u{2002}' || c == '\u{2003}'
            ||| c == '\u{2004}' || c == '\u{2005}' || c == '\u{2006}' || c == '\u{2007}'
            ||| c == '\u{2008}' || c == '\u{2009}' || c == '\u{200a}'
            ||| c == '\u{2028}' || c == '\u{2029}' || c == '\u{202f}' || c == '\u{205f}'
            ||| c == '\u{3000}'
        },
{
}

proof fn lemma_trim_start(s: Seq<char>)
    ensures
        trim_start(s).len() <= s.len(),
        is_blank(s.take(s.len() - trim_start(s).len())),
        trim_start(s) == s.skip(s.len() - trim_start(s).len()),
        trim_start(s).len() > 0 ==> !is_whitespace(trim_start(s)[0]),
    decreases s.len(),
{
    if s.len() > 0 && is_whitespace(s[0]) {
        let rest = s.drop_first();
        lemma_trim_start(rest);
        let n = s.len() - trim_start(s).len();
        assert(trim_start(s) =~= s.skip(n));
        assert forall|i: int| 0 <= i < n implies is_whitespace(#[trigger] s.take(n)[i]) by {
            if i > 0 {
                assert(rest.take(n - 1)[i - 1] == s[i]);
            }
        }
    } else {
        assert(s.skip(0) =~= s);
    }
}

proof fn lemma_trim_end(s: Seq<char>)
    ensures
        trim_end(s).len() <= s.len(),
        is_blank(s.skip(trim_end(s).len() as int)),
        trim_end(s) == s.take(trim_end(s).len() as int),
        trim_end(s).len() > 0 ==> !is_whitespace(trim_end(s)[trim_end(s).len() - 1]),
    decreases s.len(),
{
    if s.len() > 0 && is_whitespace(s.last()) {
        let rest = s.drop_last();
        lemma_trim_end(rest);
        let n = trim_end(s).len() as int;
        assert(trim_end(s) =~= s.take(n));
        assert forall|i: int| 0 <= i < s.len() - n implies is_whitespace(
            #[trigger] s.skip(n)[i],
        ) by {
            if n + i < s.len() - 1 {
                assert(rest.skip(n)[i] == s[n + i]);
            }
        }
    } else {
        assert(s.take(s.len() as int) =~= s);
    }
}

/// A trimmed text is what stands between white space at both ends, and has none there.
pub proof fn law_trim_cuts(s: Seq<char>) -> (cut: (Seq<char>, Seq<char>))
    ensures
        is_blank(cut.0),
        is_blank(cut.1),
        is_bounded(trim(s)),
        s == cut.0 + trim(s) + cut.1,
{
    lemma_trim_start(s);
    let t = trim_start(s);
    lemma_trim_end(t);
    let u = trim_end(t);
    let a = s.take(s.len() - t.len());
    let b = t.skip(u.len() as int);
    assert(s =~= a + u + b);
    if u.len() > 0 {
        assert(u[0] == t[0]);
    }
    (a, b)
}

/// White space round a text that has none at its ends is trimmed, and nothing else.
pub proof fn law_trim(a: Seq<char>, t: Seq<char>, b: Seq<char>)
    requires
        is_blank(a),
        is_blank(b),
        is_bounded(t),
    ensures
        trim(a + t + b) == t,
{
    let s = a + t + b;
    let cut = law_trim_cuts(s);
    let u = trim(s);
    if t.len() == 0 {
        assert forall|i: int| 0 <= i < s.len() implies is_whitespace(#[trigger] s[i]) by {
            if i < a.len() {
                assert(s[i] == a[i]);
            } else {
                assert(s[i] == b[i - a.len()]);
            }
        }
        if u.len() > 0 {
            assert(s[cut.0.len() as int] == u[0]);
        }
        assert(u =~= t);
    } else {
        assert(s[a.len() as int] == t[0]);
        assert(s[a.len() + t.len() - 1] == t[t.len() - 1]);
        // The two places where the texts begin are the same, and so are those where they end.
        if u.len() == 0 {
            let k = a.len() as int;
            if k < cut.0.len() {
                assert(s[k] == cut.0[k]);
            } else {
                assert(s[k] == cut.1[k - cut.0.len()]);
            }
            assert(false);
        }
        assert(s[cut.0.len() as int] == u[0]);
        assert(s[cut.0.len() + u.len() - 1] == u[u.len() - 1]);
        if a.len() < cut.0.len() {
            assert(s[a.len() as int] == cut.0[a.len() as int]);
        }
        if cut.0.len() < a.len() {
            assert(s[cut.0.len() as int] == a[cut.0.len() as int]);
        }
        let e = a.len() + t.len() - 1;
        let f = cut.0.len() + u.len() - 1;
        if e > f {
            assert(s[e] == cut.1[e - f - 1]);
        }
        if f > e {
            assert(s[f] == b[f - e - 1]);
        }
        let n = a.len() as int;
        assert(t =~= s.subrange(n, e + 1));
        assert(u =~= s.subrange(cut.0.len() as int, f + 1));
    }
}

/// The trailing occurrences of a character are cut off, and nothing else.
pub proof fn law_trim_end_char(s: Seq<char>, c: char, n: nat)
    requires
        s.len() > 0 ==> s.last() != c,
    ensures
        trim_end_char(s + Seq::new(n, |i: int| c), c) == s,
    decreases n,
{
    let tail = Seq::new(n, |i: int| c);
    let all = s + tail;
    if n == 0 {
        assert(all =~= s);
    } else {
        let fewer = Seq::new((n - 1) as nat, |i: int| c);
        law_trim_end_char(s, c, (n - 1) as nat);
        assert(all.last() == c);
        assert(all.drop_last() =~= s + fewer);
    }
}

/// The two characters are the same, or the capital and the small form of one ASCII letter.
pub open spec fn is_same_letter(x: char, y: char) -> bool {
    ||| x == y
    ||| 'A' <= x <= 'Z' && y == (x as u8 + 32) as u8 as char
    ||| 'A' <= y <= 'Z' && x == (y as u8 + 32) as u8 as char
}

/// Two texts are equal up to case where they are as long as each other and each two
/// characters are the same, or the capital and the small form of one ASCII letter.
pub proof fn law_eq_ignore_case(a: Seq<char>, b: Seq<char>)
    ensures
        eq_ignore_case(a, b) <==> a.len() == b.len() && forall|i: int|
            0 <= i < a.len() ==> is_same_letter(#[trigger] a[i], b[i]),
{
    let low = |c: char| crate::text::ascii_lower(c);
    let fa = a.map_values(low);
    let fb = b.map_values(low);
    if eq_ignore_case(a, b) {
        assert(fa.len() == fb.len());
        assert forall|i: int| 0 <= i < a.len() implies is_same_letter(#[trigger] a[i], b[i]) by {
            assert(fa[i] == fb[i]);
        }
    }
    if a.len() == b.len() && (forall|i: int|
        0 <= i < a.len() ==> is_same_letter(#[trigger] a[i], b[i])) {
        assert forall|i: int| 0 <= i < fa.len() implies fa[i] == fb[i] by {
            assert(is_same_letter(a[i], b[i]));
        }
        assert(fa =~= fb);
    }
}

/// Changing the case of an ASCII text keeps its length and changes letters only: the
/// lower case holds no capital, the upper case no small letter, and both are equal to
/// the text up to case.
pub proof fn law_case(s: Seq<char>)
    requires
        vstd::utf8::is_ascii_chars(s),
    ensures
        eq_ignore_case(lower(s), s),
        eq_ignore_case(upper(s), s),
        forall|i: int| 0 <= i < s.len() ==> !('A' <= #[trigger] lower(s)[i] <= 'Z'),
        forall|i: int| 0 <= i < s.len() ==> !('a' <= #[trigger] upper(s)[i] <= 'z'),
{
    law_eq_ignore_case(lower(s), s);
    law_eq_ignore_case(upper(s), s);
}

/// The last index at which a character stands: it stands there and not behind.
pub proof fn law_rfind(s: Seq<char>, c: char)
    ensures
        match rfind(s, c) {
            Some(i) => 0 <= i < s.len() && s[i] == c && forall|j: int|
                i < j < s.len() ==> #[trigger] s[j] != c,
            None => forall|j: int| 0 <= j < s.len() ==> #[trigger] s[j] != c,
        },
{
    lemma_rfind_before(s, c, s.len() as int);
}

proof fn lemma_rfind_before(s: Seq<char>, c: char, n: int)
    requires
        0 <= n <= s.len(),
    ensures
        match rfind_before(s, c, n) {
            Some(i) => 0 <= i < n && s[i] == c && forall|j: int|
                i < j < n ==> #[trigger] s[j] != c,
            None => forall|j: int| 0 <= j < n ==> #[trigger] s[j] != c,
        },
    decreases n,
{
    if n > 0 && s[n - 1] != c {
        lemma_rfind_before(s, c, n - 1);
    }
}

/// A text stands in every text that it is put into.
pub proof fn law_contains_text(a: Seq<char>, p: Seq<char>, b: Seq<char>)
    ensures
        stands_at(a + p + b, p, a.len() as int),
        contains_text(a + p + b, p),
{
    let s = a + p + b;
    assert(s.subrange(a.len() as int, (a.len() + p.len()) as int) =~= p);
    assert(stands_at(s, p, a.len() as int));
}

/// A text in which another stands is that one with something before and behind it.
pub proof fn law_contained(s: Seq<char>, p: Seq<char>) -> (cut: (Seq<char>, Seq<char>))
    requires
        contains_text(s, p),
    ensures
        s == cut.0 + p + cut.1,
{
    let i = choose|i: int| stands_at(s, p, i);
    let a = s.take(i);
    let b = s.skip(i + p.len());
    assert(p =~= s.subrange(i, i + p.len()));
    assert(s =~= a + p + b);
    (a, b)
}

/// The prefix of a text is taken off where the text begins with it, and only there.
pub proof fn law_strip_prefix(s: Seq<char>, p: Seq<char>, r: Seq<char>)
    ensures
        strip_prefix(s, p) == Some(r) <==> s == p + r,
        strip_prefix(s, p) is None ==> s != p + r,
{
    if s == p + r {
        assert(s.subrange(0, p.len() as int) =~= p);
        assert(s.skip(p.len() as int) =~= r);
    }
    if strip_prefix(s, p) == Some(r) {
        assert(s.subrange(0, p.len() as int) == p);
        assert(s =~= s.subrange(0, p.len() as int) + s.skip(p.len() as int));
    }
}

/// What is cut from the parts of a text does not depend on what stands before them.
proof fn lemma_parts_skip(s: Seq<char>, c: char, n: int, i: int)
    requires
        0 <= n <= i <= s.len(),
    ensures
        parts_from(s, c, i) == parts_from(s.skip(n), c, i - n),
    decreases s.len() - i,
{
    let t = s.skip(n);
    lemma_find_from(s, c, i);
    let j = find_from(s, c, i);
    assert forall|k: int| i - n <= k < j - n implies t[k] != c by {
        assert(t[k] == s[k + n]);
    }
    lemma_find_from_is(t, c, i - n, j - n);
    if j < s.len() {
        assert(s.subrange(i, j) =~= t.subrange(i - n, j - n));
        lemma_parts_skip(s, c, n, j + 1);
    } else {
        assert(s.subrange(i, s.len() as int) =~= t.subrange(i - n, t.len() as int));
    }
}

/// A text without the separator is one part.
pub proof fn law_one_part(s: Seq<char>, c: char)
    requires
        forall|i: int| 0 <= i < s.len() ==> #[trigger] s[i] != c,
    ensures
        parts(s, c) == seq![s],
{
    lemma_find_from_is(s, c, 0, s.len() as int);
    assert(s.subrange(0, s.len() as int) =~= s);
}

/// The part before the first separator comes first, and the parts behind it follow.
pub proof fn law_first_part(a: Seq<char>, c: char, b: Seq<char>)
    requires
        forall|i: int| 0 <= i < a.len() ==> #[trigger] a[i] != c,
    ensures
        parts(a + seq![c] + b, c) == seq![a] + parts(b, c),
{
    let s = a + seq![c] + b;
    let n = a.len() as int;
    assert forall|j: int| 0 <= j < n implies s[j] != c by {
        assert(s[j] == a[j]);
    }
    assert(s[n] == c);
    lemma_find_from_is(s, c, 0, n);
    assert(s.subrange(0, n) =~= a);
    lemma_parts_skip(s, c, n + 1, n + 1);
    assert(s.skip(n + 1) =~= b);
}

/// The lines of a text do not depend on what stands before them.
proof fn lemma_lines_skip(s: Seq<char>, n: int, i: int)
    requires
        0 <= n <= i <= s.len(),
    ensures
        lines_from(s, i) == lines_from(s.skip(n), i - n),
    decreases s.len() - i,
{
    let t = s.skip(n);
    if i < s.len() {
        lemma_find_from(s, '\n', i);
        let j = find_from(s, '\n', i);
        assert forall|k: int| i - n <= k < j - n implies t[k] != '\n' by {
            assert(t[k] == s[k + n]);
        }
        lemma_find_from_is(t, '\n', i - n, j - n);
        if j < s.len() {
            assert(s.subrange(i, j) =~= t.subrange(i - n, j - n));
            lemma_lines_skip(s, n, j + 1);
        } else {
            assert(s.subrange(i, s.len() as int) =~= t.subrange(i - n, t.len() as int));
        }
    }
}

/// A line ends at the line feed, without a carriage return before it, and the lines
/// behind it follow. A text without a line feed is one line, and an empty one has none.
pub proof fn law_first_line(a: Seq<char>, b: Seq<char>)
    requires
        forall|i: int| 0 <= i < a.len() ==> #[trigger] a[i] != '\n',
    ensures
        a.len() > 0 ==> lines(a) == seq![a],
        a.len() == 0 ==> lines(a).len() == 0,
        (a.len() == 0 || a.last() != '\r') ==> lines(a + seq!['\n'] + b) == seq![a] + lines(b),
        lines(a + seq!['\r', '\n'] + b) == seq![a] + lines(b),
{
    let n = a.len() as int;
    lemma_find_from_is(a, '\n', 0, n);
    assert(a.subrange(0, n) =~= a);
    let s = a + seq!['\n'] + b;
    assert forall|j: int| 0 <= j < n implies s[j] != '\n' by {
        assert(s[j] == a[j]);
    }
    assert(s[n] == '\n');
    lemma_find_from_is(s, '\n', 0, n);
    assert(s.subrange(0, n) =~= a);
    lemma_lines_skip(s, n + 1, n + 1);
    assert(s.skip(n + 1) =~= b);
    let r = a + seq!['\r', '\n'] + b;
    let cr = a.push('\r');
    assert forall|j: int| 0 <= j < n + 1 implies r[j] != '\n' by {
        if j < n {
            assert(r[j] == a[j]);
        }
    }
    assert(r[n + 1] == '\n');
    lemma_find_from_is(r, '\n', 0, n + 1);
    assert(r.subrange(0, n + 1) =~= cr);
    assert(strip_cr(cr) =~= a);
    lemma_lines_skip(r, n + 2, n + 2);
    assert(r.skip(n + 2) =~= b);
}

/// Texts are joined in order, with the separator between each two.
pub proof fn law_join(list: Seq<Seq<char>>, sep: Seq<char>, last: Seq<char>)
    ensures
        join(Seq::empty(), sep).len() == 0,
        join(seq![last], sep) == last,
        list.len() > 0 ==> join(list.push(last), sep) == join(list, sep) + sep + last,
{
    assert(list.push(last).drop_last() =~= list);
}

/// The four characters that markup cannot hold are written as entities, and any other
/// character as itself. The parts of a text are written one after the other.
pub proof fn law_escape(a: Seq<char>, b: Seq<char>, c: char)
    ensures
        escape(a + b) == escape(a) + escape(b),
        c == '&' ==> escape(seq![c]) == "&amp;"@,
        c == '<' ==> escape(seq![c]) == "&lt;"@,
        c == '>' ==> escape(seq![c]) == "&gt;"@,
        c == '"' ==> escape(seq![c]) == "&quot;"@,
        c != '&' && c != '<' && c != '>' && c != '"' ==> escape(seq![c]) == seq![c],
    decreases b.len(),
{
    let one = seq![c];
    assert(one.last() == c);
    assert(escape(one.drop_last()) =~= Seq::empty());
    assert(Seq::<char>::empty() + escape_char(c) =~= escape_char(c));
    if b.len() == 0 {
        assert(a + b =~= a);
        assert(escape(a) + escape(b) =~= escape(a));
    } else {
        law_escape(a, b.drop_last(), c);
        assert((a + b).drop_last() =~= a + b.drop_last());
        assert((a + b).last() == b.last());
        assert(escape(a + b) =~= escape(a) + escape(b));
    }
}

/// Texts are put together in order.
pub proof fn law_concat(list: Seq<Seq<char>>, last: Seq<char>)
    ensures
        concat(Seq::empty()).len() == 0,
        concat(list.push(last)) == concat(list) + last,
{
    assert(list.push(last).drop_last() =~= list);
}

} // verus!
