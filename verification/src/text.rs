//! Texts as sequences of characters: splitting at white space and at line
//! ends, searching, reading numbers, and the models that the contracts of the
//! crate are written in.

use vstd::prelude::*;

verus! {

/// The views of a sequence of strings.
pub open spec fn texts(v: Seq<String>) -> Seq<Seq<char>> {
    Seq::new(v.len(), |i: int| v[i]@)
}

/// `needle` stands in `hay` at position `i`.
pub open spec fn occurs_at(hay: Seq<char>, needle: Seq<char>, i: int) -> bool {
    0 <= i && i + needle.len() <= hay.len() && hay.subrange(i, i + needle.len()) == needle
}

/// `needle` is a contiguous part of `hay`.
pub open spec fn has_sub(hay: Seq<char>, needle: Seq<char>) -> bool {
    exists|i: int| occurs_at(hay, needle, i)
}

/// The characters with the Unicode property `White_Space`.
pub open spec fn is_space(c: char) -> bool {
    let u = c as u32;
    (0x09 <= u && u <= 0x0D) || u == 0x20 || u == 0x85 || u == 0xA0 || u == 0x1680
        || (0x2000 <= u && u <= 0x200A) || u == 0x2028 || u == 0x2029 || u == 0x202F
        || u == 0x205F || u == 0x3000
}

/// The lower-case form of a text, as `str::to_lowercase` computes it from the
/// Unicode tables.
pub uninterp spec fn lowercase(s: Seq<char>) -> Seq<char>;

/// The index of the first newline at or after `i`, or the length of `s`
/// where there is none.
pub open spec fn line_end(s: Seq<char>, i: int) -> int
    decreases s.len() - i,
{
    if i < 0 || i >= s.len() {
        s.len() as int
    } else if s[i] == '\n' {
        i
    } else {
        line_end(s, i + 1)
    }
}

/// The line that starts at `i` and ends before `e`: a carriage return right
/// before the newline at `e` belongs to the line's end, not to the line.
pub open spec fn line_between(s: Seq<char>, i: int, e: int) -> Seq<char> {
    if i < e < s.len() && s[e - 1] == '\r' {
        s.subrange(i, e - 1)
    } else {
        s.subrange(i, e)
    }
}

/// The lines of a text from position `i` on.
pub open spec fn lines_from(s: Seq<char>, i: int) -> Seq<Seq<char>>
    decreases s.len() - i,
{
    let e = line_end(s, i);
    if i < 0 || i >= s.len() || e < i {
        Seq::empty()
    } else if e >= s.len() {
        seq![line_between(s, i, e)]
    } else {
        seq![line_between(s, i, e)] + lines_from(s, e + 1)
    }
}

/// The lines of a text. A line ends at a newline, or at a carriage return
/// with a newline behind it; the last line needs no end.
pub open spec fn lines_of(s: Seq<char>) -> Seq<Seq<char>> {
    lines_from(s, 0)
}

/// The character is a decimal digit.
pub open spec fn is_digit(c: char) -> bool {
    0x30 <= c as u32 && c as u32 <= 0x39
}

/// The number that the first `n` digits of `d` spell.
pub open spec fn decimal(d: Seq<char>, n: int) -> nat
    decreases n,
{
    if n <= 0 || n > d.len() {
        0
    } else {
        (decimal(d, n - 1) * 10 + (d[n - 1] as u32 - 0x30)) as nat
    }
}

/// A text without the plus sign that may stand before its digits.
pub open spec fn unsigned_part(s: Seq<char>) -> Seq<char> {
    if s.len() > 1 && s[0] == '+' {
        s.subrange(1, s.len() as int)
    } else {
        s
    }
}

/// The 32-bit unsigned number that a text spells: one or more decimal
/// digits, a plus sign before them or not, and a value that fits; else `None`.
pub open spec fn parsed_u32(s: Seq<char>) -> Option<u32> {
    let d = unsigned_part(s);
    if d.len() > 0 && (forall|k: int| 0 <= k < d.len() ==> is_digit(#[trigger] d[k])) && decimal(
        d,
        d.len() as int,
    ) <= u32::MAX {
        Some(decimal(d, d.len() as int) as u32)
    } else {
        None
    }
}

/// More digits spell no smaller number.
pub proof fn lemma_decimal_grows(d: Seq<char>, k: int, n: int)
    requires
        0 <= k <= n <= d.len(),
        forall|j: int| 0 <= j < d.len() ==> is_digit(#[trigger] d[j]),
    ensures
        decimal(d, k) <= decimal(d, n),
    decreases n - k,
{
    if k < n {
        lemma_decimal_grows(d, k, n - 1);
        assert(is_digit(d[n - 1]));
    }
}

/// The index of the first character at or after `i` that is white space, if
/// `want` is set, or that is none, if not; the length of `s` where there is
/// no such character.
pub open spec fn next_where(s: Seq<char>, i: int, want: bool) -> int
    decreases s.len() - i,
{
    if i < 0 || i >= s.len() {
        s.len() as int
    } else if is_space(s[i]) == want {
        i
    } else {
        next_where(s, i + 1, want)
    }
}

/// The maximal runs of characters that are not white space, from position `i` on.
pub open spec fn fields_from(s: Seq<char>, i: int) -> Seq<Seq<char>>
    decreases s.len() - i,
{
    let a = next_where(s, i, false);
    let b = next_where(s, a, true);
    if i < 0 || a < i || a >= s.len() || b <= a || b > s.len() {
        Seq::empty()
    } else {
        seq![s.subrange(a, b)] + fields_from(s, b)
    }
}

/// The white-space separated fields of a text.
pub open spec fn fields_of(s: Seq<char>) -> Seq<Seq<char>> {
    fields_from(s, 0)
}

/// Trusted: `String::push` appends the character to the text.
pub assume_specification[ String::push ](s: &mut String, c: char)
    ensures
        final(s)@ == old(s)@.push(c),
;

/// The characters of a text, in order.
pub fn chars_of(s: &str) -> (r: Vec<char>)
    ensures
        r@ == s@,
{
    let mut out: Vec<char> = Vec::new();
    for c in it: s.chars()
        invariant
            out@.len() == it.index(),
            forall|k: int| 0 <= k < out@.len() ==> out@[k] == it.seq()[k],
            it.seq() == s@,
    {
        out.push(c);
    }
    assert(out@ =~= s@);
    out
}

/// Tells whether a character is white space, as Unicode defines it.
pub fn is_whitespace(c: char) -> (r: bool)
    ensures
        r == is_space(c),
{
    let u: u32 = c as u32;
    (0x09 <= u && u <= 0x0D) || u == 0x20 || u == 0x85 || u == 0xA0 || u == 0x1680 || (0x2000 <= u
        && u <= 0x200A) || u == 0x2028 || u == 0x2029 || u == 0x202F || u == 0x205F || u == 0x3000
}

/// Trusted: `str::to_lowercase`. The result is named, not described.
#[verifier::external_body]
pub(crate) fn lower(s: &str) -> (r: String)
    ensures
        r@ == lowercase(s@),
{
    s.to_lowercase()
}

/// Tells whether `needle` stands in `hay` at position `i`.
pub fn stands_at(hay: &Vec<char>, needle: &Vec<char>, i: usize) -> (r: bool)
    requires
        i + needle@.len() <= hay@.len(),
    ensures
        r == occurs_at(hay@, needle@, i as int),
{
    let m = needle.len();
    let n = hay.len();
    let mut k: usize = 0;
    while k < m
        invariant
            k <= m,
            m == needle@.len(),
            n == hay@.len(),
            i + m <= n,
            forall|q: int| 0 <= q < k ==> hay@[i + q] == needle@[q],
        decreases m - k,
    {
        if hay[i + k] != needle[k] {
            assert(hay@.subrange(i as int, i + m)[k as int] == hay@[i + k]);
            return false;
        }
        k = k + 1;
    }
    assert(hay@.subrange(i as int, i + m) =~= needle@);
    true
}

/// Tells whether `needle` is a contiguous part of `hay`. The empty text is a
/// part of every text.
pub fn contains(hay: &str, needle: &str) -> (r: bool)
    ensures
        r == has_sub(hay@, needle@),
{
    let h = chars_of(hay);
    let m = chars_of(needle);
    if m.len() > h.len() {
        assert(forall|j: int| !occurs_at(h@, m@, j));
        return false;
    }
    let last: usize = h.len() - m.len();
    let mut i: usize = 0;
    while i < last
        invariant
            i <= last,
            last == h@.len() - m@.len(),
            h@ == hay@,
            m@ == needle@,
            forall|j: int| 0 <= j < i ==> !occurs_at(h@, m@, j),
        decreases last - i,
    {
        if stands_at(&h, &m, i) {
            return true;
        }
        i = i + 1;
    }
    if stands_at(&h, &m, last) {
        return true;
    }
    assert(forall|j: int| !occurs_at(h@, m@, j));
    false
}

/// Splits a text at white space: the pieces are the maximal runs of
/// characters that are not white space, in order, and none is empty.
pub fn split_fields(s: &str) -> (r: Vec<String>)
    ensures
        texts(r@) == fields_of(s@),
{
    let cs = chars_of(s);
    let n = cs.len();
    let mut out: Vec<String> = Vec::new();
    let mut i: usize = 0;
    assert(texts(out@) + fields_from(cs@, 0) =~= fields_of(cs@));
    while i < n
        invariant
            i <= n,
            n == cs.len(),
            texts(out@) + fields_from(cs@, i as int) == fields_of(cs@),
        decreases n - i,
    {
        let mut a: usize = i;
        while a < n && is_whitespace(cs[a])
            invariant
                i <= a <= n,
                n == cs.len(),
                next_where(cs@, i as int, false) == next_where(cs@, a as int, false),
            decreases n - a,
        {
            a = a + 1;
        }
        if a >= n {
            assert(fields_from(cs@, i as int) =~= fields_from(cs@, n as int));
            i = n;
        } else {
            let mut piece = String::new();
            piece.push(cs[a]);
            let mut b: usize = a + 1;
            assert(piece@ =~= cs@.subrange(a as int, b as int));
            while b < n && !is_whitespace(cs[b])
                invariant
                    a < b <= n,
                    n == cs.len(),
                    next_where(cs@, a as int, true) == next_where(cs@, b as int, true),
                    piece@ == cs@.subrange(a as int, b as int),
                decreases n - b,
            {
                piece.push(cs[b]);
                b = b + 1;
                assert(piece@ =~= cs@.subrange(a as int, b as int));
            }
            let ghost before = texts(out@);
            let ghost rest = fields_from(cs@, b as int);
            assert(fields_from(cs@, i as int) == seq![piece@] + rest);
            out.push(piece);
            assert(texts(out@) =~= before.push(piece@));
            assert(texts(out@) + rest =~= before + (seq![piece@] + rest));
            i = b;
        }
    }
    assert(texts(out@) + fields_from(cs@, n as int) =~= texts(out@));
    out
}

/// The characters of `cs` from `from` up to `to`, as a text.
pub fn text_between(cs: &Vec<char>, from: usize, to: usize) -> (r: String)
    requires
        from <= to <= cs@.len(),
    ensures
        r@ == cs@.subrange(from as int, to as int),
{
    let mut out = String::new();
    let mut k: usize = from;
    assert(out@ =~= cs@.subrange(from as int, k as int));
    while k < to
        invariant
            from <= k <= to <= cs@.len(),
            out@ == cs@.subrange(from as int, k as int),
        decreases to - k,
    {
        out.push(cs[k]);
        k = k + 1;
        assert(out@ =~= cs@.subrange(from as int, k as int));
    }
    out
}

/// Splits a text into its lines, without their ends.
pub fn split_lines(s: &str) -> (r: Vec<String>)
    ensures
        texts(r@) == lines_of(s@),
{
    let cs = chars_of(s);
    let n = cs.len();
    let mut out: Vec<String> = Vec::new();
    let mut i: usize = 0;
    assert(texts(out@) + lines_from(cs@, 0) =~= lines_of(cs@));
    while i < n
        invariant
            i <= n,
            n == cs.len(),
            texts(out@) + lines_from(cs@, i as int) == lines_of(cs@),
        decreases n - i,
    {
        let mut e: usize = i;
        while e < n && cs[e] != '\n'
            invariant
                i <= e <= n,
                n == cs.len(),
                line_end(cs@, i as int) == line_end(cs@, e as int),
            decreases n - e,
        {
            e = e + 1;
        }
        let stop: usize = if i < e && e < n && cs[e - 1] == '\r' {
            e - 1
        } else {
            e
        };
        let line = text_between(&cs, i, stop);
        let ghost before = texts(out@);
        let ghost rest = if e < n {
            lines_from(cs@, e + 1)
        } else {
            lines_from(cs@, n as int)
        };
        assert(lines_from(cs@, i as int) =~= seq![line@] + rest);
        out.push(line);
        assert(texts(out@) =~= before.push(line@));
        assert(texts(out@) + rest =~= before + (seq![line@] + rest));
        if e < n {
            i = e + 1;
        } else {
            i = n;
        }
    }
    assert(texts(out@) + lines_from(cs@, n as int) =~= texts(out@));
    out
}

/// Reads a 32-bit unsigned number in decimal digits.
pub fn parse_u32(s: &str) -> (r: Option<u32>)
    ensures
        r == parsed_u32(s@),
{
    let cs = chars_of(s);
    let n = cs.len();
    let start: usize = if n > 1 && cs[0] == '+' {
        1
    } else {
        0
    };
    let ghost d = unsigned_part(cs@);
    if n == 0 {
        return None;
    }
    assert(d.len() == n - start);
    assert(forall|j: int| 0 <= j < d.len() ==> d[j] == cs@[start + j]);
    let mut acc: u64 = 0;
    let mut k: usize = start;
    while k < n
        invariant
            start <= k <= n,
            n == cs.len(),
            cs@ == s@,
            d == unsigned_part(cs@),
            d.len() == n - start,
            forall|j: int| 0 <= j < d.len() ==> d[j] == cs@[start + j],
            forall|j: int| 0 <= j < k - start ==> is_digit(#[trigger] d[j]),
            acc == decimal(d, k - start),
            acc <= u32::MAX,
        decreases n - k,
    {
        let u: u32 = cs[k] as u32;
        assert(d[k - start] == cs@[k as int]);
        if u < 0x30 || u > 0x39 {
            assert(!is_digit(d[k - start]));
            return None;
        }
        acc = acc * 10 + (u - 0x30) as u64;
        k = k + 1;
        if acc > 0xFFFF_FFFF {
            proof {
                if forall|j: int| 0 <= j < d.len() ==> is_digit(#[trigger] d[j]) {
                    lemma_decimal_grows(d, k - start, d.len() as int);
                }
            }
            return None;
        }
    }
    Some(acc as u32)
}

} // verus!
