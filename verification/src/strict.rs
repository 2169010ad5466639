//! What holds of sanitized text: it holds no comment, and sanitizing it again
//! changes nothing but trailing commas that the first pass laid bare.

use vstd::prelude::*;
use crate::sanitize::{
    comma_fixed, comment_free, kept_prefix, lemma_kept_all, pair_at, sanitized, strip_from,
    trailing_comma_at, Scan,
};
use crate::text::{is_space, next_where};

verus! {

/// The state in which the scanner reads what it emitted in state `mode`: a
/// comment leaves nothing behind, so behind one it reads code.
pub open spec fn resumed(mode: Scan) -> Scan {
    match mode {
        Scan::Text => Scan::Text,
        Scan::Escaped => Scan::Escaped,
        _ => Scan::Code,
    }
}

/// The scanner, reaching `j` in state `mode`, meets no comment in `t` from
/// there on.
pub open spec fn comment_less(t: Seq<char>, j: int, mode: Scan) -> bool
    decreases t.len() - j,
{
    if j < 0 || j >= t.len() {
        true
    } else {
        let c = t[j];
        match mode {
            Scan::Escaped => comment_less(t, j + 1, Scan::Text),
            Scan::Text => if c == '"' {
                comment_less(t, j + 1, Scan::Code)
            } else if c == '\\' {
                comment_less(t, j + 1, Scan::Escaped)
            } else {
                comment_less(t, j + 1, Scan::Text)
            },
            Scan::Code => if c == '"' {
                comment_less(t, j + 1, Scan::Text)
            } else if pair_at(t, j, '/', '/') || pair_at(t, j, '/', '*') {
                false
            } else {
                comment_less(t, j + 1, Scan::Code)
            },
            _ => false,
        }
    }
}

/// The characters of `t` from `j` on without the trailing commas among them.
pub open spec fn kept_from(t: Seq<char>, j: int) -> Seq<char>
    decreases t.len() - j,
{
    if j < 0 || j >= t.len() {
        Seq::empty()
    } else if trailing_comma_at(t, j) {
        kept_from(t, j + 1)
    } else {
        seq![t[j]] + kept_from(t, j + 1)
    }
}

/// Whether a text holds a comment behind its first character does not
/// depend on that character.
pub proof fn lemma_comment_less_behind(c: char, r: Seq<char>, j: int, mode: Scan)
    requires
        0 <= j <= r.len(),
    ensures
        comment_less(seq![c] + r, j + 1, mode) == comment_less(r, j, mode),
    decreases r.len() - j,
{
    let a = seq![c] + r;
    if j < r.len() {
        assert(a[j + 1] == r[j]);
        if j + 1 < r.len() {
            assert(a[j + 2] == r[j + 1]);
        }
        assert(pair_at(a, j + 1, '/', '/') == pair_at(r, j, '/', '/'));
        assert(pair_at(a, j + 1, '/', '*') == pair_at(r, j, '/', '*'));
        lemma_comment_less_behind(c, r, j + 1, Scan::Code);
        lemma_comment_less_behind(c, r, j + 1, Scan::Text);
        lemma_comment_less_behind(c, r, j + 1, Scan::Escaped);
    }
}

/// A text without a comment comes out of the comment scanner as it went in.
pub proof fn lemma_comment_less_kept(t: Seq<char>, j: int, mode: Scan)
    requires
        0 <= j <= t.len(),
        comment_less(t, j, mode),
    ensures
        strip_from(t, j, mode) == t.subrange(j, t.len() as int),
    decreases t.len() - j,
{
    if j < t.len() {
        let next = match mode {
            Scan::Escaped => Scan::Text,
            Scan::Text => if t[j] == '"' {
                Scan::Code
            } else if t[j] == '\\' {
                Scan::Escaped
            } else {
                Scan::Text
            },
            _ => if t[j] == '"' {
                Scan::Text
            } else {
                Scan::Code
            },
        };
        lemma_comment_less_kept(t, j + 1, next);
        assert(seq![t[j]] + t.subrange(j + 1, t.len() as int) =~= t.subrange(j, t.len() as int));
    } else {
        assert(strip_from(t, j, mode) =~= t.subrange(j, t.len() as int));
    }
}

/// What the comment scanner emits holds no comment.
pub proof fn lemma_stripped_comment_less(s: Seq<char>, i: int, mode: Scan)
    requires
        0 <= i,
    ensures
        comment_less(strip_from(s, i, mode), 0, resumed(mode)),
    decreases s.len() - i,
{
    if i < s.len() {
        let c = s[i];
        let o = strip_from(s, i, mode);
        match mode {
            Scan::Escaped => {
                let rest = strip_from(s, i + 1, Scan::Text);
                lemma_stripped_comment_less(s, i + 1, Scan::Text);
                lemma_comment_less_behind(c, rest, 0, Scan::Text);
                assert(o[0] == c);
            },
            Scan::Text => {
                let next = if c == '"' {
                    Scan::Code
                } else if c == '\\' {
                    Scan::Escaped
                } else {
                    Scan::Text
                };
                let rest = strip_from(s, i + 1, next);
                lemma_stripped_comment_less(s, i + 1, next);
                lemma_comment_less_behind(c, rest, 0, next);
                assert(o[0] == c);
            },
            Scan::Code => {
                if c == '"' {
                    let rest = strip_from(s, i + 1, Scan::Text);
                    lemma_stripped_comment_less(s, i + 1, Scan::Text);
                    lemma_comment_less_behind(c, rest, 0, Scan::Text);
                    assert(o[0] == c);
                } else if pair_at(s, i, '/', '/') {
                    lemma_stripped_comment_less(s, i + 2, Scan::LineComment);
                } else if pair_at(s, i, '/', '*') {
                    lemma_stripped_comment_less(s, i + 2, Scan::BlockComment);
                } else {
                    let rest = strip_from(s, i + 1, Scan::Code);
                    lemma_stripped_comment_less(s, i + 1, Scan::Code);
                    lemma_comment_less_behind(c, rest, 0, Scan::Code);
                    assert(o == seq![c] + rest);
                    assert(o[0] == c);
                    if c == '/' && rest.len() > 0 {
                        assert(i + 1 < s.len());
                        assert(rest[0] == s[i + 1]);
                        assert(o[1] == rest[0]);
                    }
                    assert(!pair_at(o, 0, '/', '/'));
                    assert(!pair_at(o, 0, '/', '*'));
                }
            },
            Scan::LineComment => {
                if c == '\n' {
                    let rest = strip_from(s, i + 1, Scan::Code);
                    lemma_stripped_comment_less(s, i + 1, Scan::Code);
                    lemma_comment_less_behind(c, rest, 0, Scan::Code);
                    assert(o[0] == c);
                } else {
                    lemma_stripped_comment_less(s, i + 1, Scan::LineComment);
                }
            },
            Scan::BlockComment => {
                if pair_at(s, i, '*', '/') {
                    lemma_stripped_comment_less(s, i + 2, Scan::Code);
                } else {
                    lemma_stripped_comment_less(s, i + 1, Scan::BlockComment);
                }
            },
        }
    }
}

/// Reading a text from its start or from its end gives the same text
/// without trailing commas.
pub proof fn lemma_kept_both_ways(t: Seq<char>, n: int)
    requires
        0 <= n <= t.len(),
    ensures
        kept_prefix(t, n) + kept_from(t, n) == kept_from(t, 0),
    decreases n,
{
    if n == 0 {
        assert(kept_prefix(t, 0) + kept_from(t, 0) =~= kept_from(t, 0));
    } else {
        lemma_kept_both_ways(t, n - 1);
        assert(kept_prefix(t, n) + kept_from(t, n) =~= kept_prefix(t, n - 1) + kept_from(
            t,
            n - 1,
        ));
    }
}

/// Behind a trailing comma stands white space or a closing bracket, and that
/// character is kept.
pub proof fn lemma_behind_trailing_comma(t: Seq<char>, k: int)
    requires
        trailing_comma_at(t, k),
    ensures
        k + 1 < t.len(),
        is_space(t[k + 1]) || t[k + 1] == '}' || t[k + 1] == ']',
        kept_from(t, k) == seq![t[k + 1]] + kept_from(t, k + 2),
{
    assert(next_where(t, k + 1, false) < t.len());
    assert(k + 1 < t.len());
    assert(!is_space(','));
    assert(t[k + 1] != ',');
    assert(!trailing_comma_at(t, k + 1));
    assert(kept_from(t, k) == kept_from(t, k + 1));
}

/// A text without a comment has none after its trailing commas are gone.
pub proof fn lemma_fixed_comment_less(t: Seq<char>, j: int, mode: Scan)
    requires
        0 <= j <= t.len(),
        comment_less(t, j, mode),
    ensures
        comment_less(kept_from(t, j), 0, mode),
    decreases t.len() - j,
{
    if j < t.len() {
        let c = t[j];
        let r = kept_from(t, j);
        if trailing_comma_at(t, j) {
            lemma_behind_trailing_comma(t, j);
            let d = t[j + 1];
            assert(!is_space('"') && !is_space('\\'));
            match mode {
                Scan::Escaped => {
                    let rest = kept_from(t, j + 2);
                    assert(comment_less(t, j + 1, Scan::Text));
                    assert(comment_less(t, j + 2, Scan::Text));
                    lemma_fixed_comment_less(t, j + 2, Scan::Text);
                    lemma_comment_less_behind(d, rest, 0, Scan::Text);
                    assert(r[0] == d);
                },
                Scan::Text => {
                    lemma_fixed_comment_less(t, j + 1, Scan::Text);
                },
                _ => {
                    lemma_fixed_comment_less(t, j + 1, Scan::Code);
                },
            }
        } else {
            let rest = kept_from(t, j + 1);
            assert(r == seq![c] + rest);
            assert(r[0] == c);
            match mode {
                Scan::Escaped => {
                    lemma_fixed_comment_less(t, j + 1, Scan::Text);
                    lemma_comment_less_behind(c, rest, 0, Scan::Text);
                },
                Scan::Text => {
                    let next = if c == '"' {
                        Scan::Code
                    } else if c == '\\' {
                        Scan::Escaped
                    } else {
                        Scan::Text
                    };
                    lemma_fixed_comment_less(t, j + 1, next);
                    lemma_comment_less_behind(c, rest, 0, next);
                },
                _ => {
                    if c == '"' {
                        lemma_fixed_comment_less(t, j + 1, Scan::Text);
                        lemma_comment_less_behind(c, rest, 0, Scan::Text);
                    } else {
                        lemma_fixed_comment_less(t, j + 1, Scan::Code);
                        lemma_comment_less_behind(c, rest, 0, Scan::Code);
                        if c == '/' && rest.len() > 0 {
                            assert(j + 1 < t.len());
                            assert(r[1] == rest[0]);
                            assert(!is_space('/') && !is_space('*'));
                            if trailing_comma_at(t, j + 1) {
                                lemma_behind_trailing_comma(t, j + 1);
                                assert(rest[0] == t[j + 2]);
                            } else {
                                assert(rest[0] == t[j + 1]);
                            }
                        }
                        assert(!pair_at(r, 0, '/', '/'));
                        assert(!pair_at(r, 0, '/', '*'));
                    }
                },
            }
        }
    }
}

/// The first `n` characters without their trailing commas are at most `n`.
pub proof fn lemma_kept_bound(t: Seq<char>, n: int)
    requires
        0 <= n <= t.len(),
    ensures
        kept_prefix(t, n).len() <= n,
    decreases n,
{
    if n > 0 {
        lemma_kept_bound(t, n - 1);
    }
}

/// A trailing comma among the first `n` characters makes them fewer.
pub proof fn lemma_kept_shorter(t: Seq<char>, n: int, i: int)
    requires
        0 <= i < n <= t.len(),
        trailing_comma_at(t, i),
    ensures
        kept_prefix(t, n).len() < n,
    decreases n,
{
    lemma_kept_bound(t, n - 1);
    if i < n - 1 {
        lemma_kept_shorter(t, n - 1, i);
    }
}

/// Removing comments twice is removing them once.
pub proof fn lemma_comment_free_idempotent(s: Seq<char>)
    ensures
        comment_free(comment_free(s)) == comment_free(s),
{
    let t = comment_free(s);
    lemma_stripped_comment_less(s, 0, Scan::Code);
    lemma_comment_less_kept(t, 0, Scan::Code);
    assert(t.subrange(0, t.len() as int) =~= t);
}

/// Sanitized text holds no comment: the first pass of a second sanitizing
/// leaves it as it is.
pub proof fn lemma_sanitized_comment_free(s: Seq<char>)
    ensures
        comment_free(sanitized(s)) == sanitized(s),
        sanitized(sanitized(s)) == comma_fixed(sanitized(s)),
{
    let t = comment_free(s);
    let y = sanitized(s);
    lemma_stripped_comment_less(s, 0, Scan::Code);
    lemma_fixed_comment_less(t, 0, Scan::Code);
    lemma_kept_both_ways(t, t.len() as int);
    assert(kept_prefix(t, t.len() as int) + kept_from(t, t.len() as int) =~= kept_prefix(
        t,
        t.len() as int,
    ));
    assert(y == kept_from(t, 0));
    lemma_comment_less_kept(y, 0, Scan::Code);
    assert(y.subrange(0, y.len() as int) =~= y);
}

/// Sanitizing twice is sanitizing once, for every text whose sanitized form
/// holds no trailing comma. (Of two commas before a closing bracket the first
/// pass removes the second only, and a second pass would remove the first.)
pub proof fn lemma_sanitize_idempotent(s: Seq<char>)
    requires
        forall|i: int| !#[trigger] trailing_comma_at(sanitized(s), i),
    ensures
        sanitized(sanitized(s)) == sanitized(s),
{
    let y = sanitized(s);
    lemma_sanitized_comment_free(s);
    lemma_kept_all(y, y.len() as int);
    assert(y.subrange(0, y.len() as int) =~= y);
}

/// Sanitizing twice is sanitizing once exactly for the texts whose sanitized
/// form holds no trailing comma.
pub proof fn lemma_sanitize_twice(s: Seq<char>)
    ensures
        sanitized(sanitized(s)) == sanitized(s) <==> forall|i: int|
            !#[trigger] trailing_comma_at(sanitized(s), i),
{
    let y = sanitized(s);
    lemma_sanitized_comment_free(s);
    if forall|i: int| !#[trigger] trailing_comma_at(y, i) {
        lemma_sanitize_idempotent(s);
    } else {
        let i = choose|i: int| trailing_comma_at(y, i);
        lemma_kept_shorter(y, y.len() as int, i);
        assert(comma_fixed(y).len() < y.len());
    }
}

} // verus!
