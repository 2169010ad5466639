//! The lenient sanitizer: JSON-like text with comments and trailing commas in,
//! strict JSON text out.

use vstd::prelude::*;
use crate::text::{chars_of, is_whitespace, next_where};

verus! {

/// Where the comment scanner stands between two characters.
#[derive(Clone, Copy, PartialEq, Eq, Debug)]
pub enum Scan {
    /// Outside any string literal and comment.
    Code,
    /// Inside a string literal.
    Text,
    /// Inside a string literal, right behind a backslash.
    Escaped,
    /// Behind `//`, before the end of the line.
    LineComment,
    /// Behind `/*`, before the closing `*/`.
    BlockComment,
}

/// The character at `i` is `first` and the one behind it is `second`.
pub open spec fn pair_at(s: Seq<char>, i: int, first: char, second: char) -> bool {
    0 <= i && i + 1 < s.len() && s[i] == first && s[i + 1] == second
}

/// What the comment scanner emits for the characters of `s` from `i` on, when
/// it reaches `i` in state `mode`.
pub open spec fn strip_from(s: Seq<char>, i: int, mode: Scan) -> Seq<char>
    decreases s.len() - i,
{
    if i < 0 || i >= s.len() {
        Seq::empty()
    } else {
        let c = s[i];
        match mode {
            Scan::Escaped => seq![c] + strip_from(s, i + 1, Scan::Text),
            Scan::Text => if c == '"' {
                seq![c] + strip_from(s, i + 1, Scan::Code)
            } else if c == '\\' {
                seq![c] + strip_from(s, i + 1, Scan::Escaped)
            } else {
                seq![c] + strip_from(s, i + 1, Scan::Text)
            },
            Scan::Code => if c == '"' {
                seq![c] + strip_from(s, i + 1, Scan::Text)
            } else if pair_at(s, i, '/', '/') {
                strip_from(s, i + 2, Scan::LineComment)
            } else if pair_at(s, i, '/', '*') {
                strip_from(s, i + 2, Scan::BlockComment)
            } else {
                seq![c] + strip_from(s, i + 1, Scan::Code)
            },
            Scan::LineComment => if c == '\n' {
                seq![c] + strip_from(s, i + 1, Scan::Code)
            } else {
                strip_from(s, i + 1, Scan::LineComment)
            },
            Scan::BlockComment => if pair_at(s, i, '*', '/') {
                strip_from(s, i + 2, Scan::Code)
            } else {
                strip_from(s, i + 1, Scan::BlockComment)
            },
        }
    }
}

/// The text without its `//` and `/* */` comments. String literals are kept
/// as they are; a line comment leaves its newline; a block comment without
/// an end takes the rest of the text.
pub open spec fn comment_free(s: Seq<char>) -> Seq<char> {
    strip_from(s, 0, Scan::Code)
}

/// The character at `i` is a comma, and the next character behind it that is
/// not white space closes an object or an array.
pub open spec fn trailing_comma_at(s: Seq<char>, i: int) -> bool {
    let j = next_where(s, i + 1, false);
    0 <= i < s.len() && s[i] == ',' && j < s.len() && (s[j] == '}' || s[j] == ']')
}

/// The first `n` characters of `s` without the trailing commas among them.
pub open spec fn kept_prefix(s: Seq<char>, n: int) -> Seq<char>
    decreases n,
{
    if n <= 0 || n > s.len() {
        Seq::empty()
    } else if trailing_comma_at(s, n - 1) {
        kept_prefix(s, n - 1)
    } else {
        kept_prefix(s, n - 1).push(s[n - 1])
    }
}

/// The text without its trailing commas.
pub open spec fn comma_fixed(s: Seq<char>) -> Seq<char> {
    kept_prefix(s, s.len() as int)
}

/// The strict text for a lenient one: comments out first, then trailing commas.
pub open spec fn sanitized(s: Seq<char>) -> Seq<char> {
    comma_fixed(comment_free(s))
}

/// The state of the scanner behind the `n` characters from `i` on, where it
/// reaches `i` inside a string literal in state `mode` and the literal does
/// not end among them; `None` where it ends or the text does.
pub open spec fn inside_literal(s: Seq<char>, i: int, n: int, mode: Scan) -> Option<Scan>
    decreases n,
{
    if n <= 0 {
        Some(mode)
    } else if i < 0 || i >= s.len() {
        None
    } else {
        match mode {
            Scan::Escaped => inside_literal(s, i + 1, n - 1, Scan::Text),
            Scan::Text => if s[i] == '"' {
                None
            } else if s[i] == '\\' {
                inside_literal(s, i + 1, n - 1, Scan::Escaped)
            } else {
                inside_literal(s, i + 1, n - 1, Scan::Text)
            },
            _ => None,
        }
    }
}

/// Inside a string literal the comment scanner copies: a stretch of `n`
/// characters within the literal comes out as it went in, whatever it looks
/// like, escapes included.
pub proof fn lemma_literal_kept(s: Seq<char>, i: int, n: int, mode: Scan)
    requires
        0 <= i <= s.len(),
        0 <= n,
        inside_literal(s, i, n, mode).is_some(),
    ensures
        i + n <= s.len(),
        strip_from(s, i, mode) == s.subrange(i, i + n) + strip_from(
            s,
            i + n,
            inside_literal(s, i, n, mode).unwrap(),
        ),
    decreases n,
{
    if n == 0 {
        assert(s.subrange(i, i) + strip_from(s, i, mode) =~= strip_from(s, i, mode));
    } else {
        let next = match mode {
            Scan::Escaped => Scan::Text,
            _ => if s[i] == '\\' {
                Scan::Escaped
            } else {
                Scan::Text
            },
        };
        let after = inside_literal(s, i, n, mode).unwrap();
        lemma_literal_kept(s, i + 1, n - 1, next);
        assert(seq![s[i]] + (s.subrange(i + 1, i + n) + strip_from(s, i + n, after))
            =~= s.subrange(i, i + n) + strip_from(s, i + n, after));
    }
}

/// A whole string literal in code, from its opening quote at `i` over the `n`
/// characters of its body to its closing quote, comes out as it went in, and
/// the scanner reads code again behind it.
pub proof fn lemma_whole_literal_kept(s: Seq<char>, i: int, n: int)
    requires
        0 <= i,
        0 <= n,
        i + n + 1 < s.len(),
        s[i] == '"',
        inside_literal(s, i + 1, n, Scan::Text) == Some(Scan::Text),
        s[i + n + 1] == '"',
    ensures
        strip_from(s, i, Scan::Code) == s.subrange(i, i + n + 2) + strip_from(
            s,
            i + n + 2,
            Scan::Code,
        ),
{
    lemma_literal_kept(s, i + 1, n, Scan::Text);
    let tail = strip_from(s, i + n + 2, Scan::Code);
    assert(strip_from(s, i + n + 1, Scan::Text) == seq!['"'] + tail);
    assert(seq!['"'] + (s.subrange(i + 1, i + n + 1) + (seq!['"'] + tail)) =~= s.subrange(
        i,
        i + n + 2,
    ) + tail);
}

/// Inside a line comment the scanner emits nothing before the newline.
pub proof fn lemma_in_line_comment(s: Seq<char>, i: int, n: int)
    requires
        0 <= i,
        0 <= n,
        i + n <= s.len(),
        forall|k: int| i <= k < i + n ==> s[k] != '\n',
    ensures
        strip_from(s, i, Scan::LineComment) == strip_from(s, i + n, Scan::LineComment),
    decreases n,
{
    if n > 0 {
        lemma_in_line_comment(s, i + 1, n - 1);
    }
}

/// A line comment in code, from its `//` at `i` over `n` characters to the
/// newline, leaves the newline and nothing else, and the scanner reads code
/// again behind it.
pub proof fn lemma_line_comment_removed(s: Seq<char>, i: int, n: int)
    requires
        pair_at(s, i, '/', '/'),
        0 <= n,
        i + 2 + n < s.len(),
        forall|k: int| i + 2 <= k < i + 2 + n ==> s[k] != '\n',
        s[i + 2 + n] == '\n',
    ensures
        strip_from(s, i, Scan::Code) == seq!['\n'] + strip_from(s, i + n + 3, Scan::Code),
{
    lemma_in_line_comment(s, i + 2, n);
}

/// A line comment without a newline behind it takes the rest of the text.
pub proof fn lemma_line_comment_to_end(s: Seq<char>, i: int)
    requires
        pair_at(s, i, '/', '/'),
        forall|k: int| i + 2 <= k < s.len() ==> s[k] != '\n',
    ensures
        strip_from(s, i, Scan::Code) == Seq::<char>::empty(),
{
    lemma_in_line_comment(s, i + 2, s.len() - i - 2);
}

/// Inside a block comment the scanner emits nothing before the closing `*/`.
pub proof fn lemma_in_block_comment(s: Seq<char>, i: int, n: int)
    requires
        0 <= i,
        0 <= n,
        i + n <= s.len(),
        forall|k: int| i <= k < i + n ==> !#[trigger] pair_at(s, k, '*', '/'),
    ensures
        strip_from(s, i, Scan::BlockComment) == strip_from(s, i + n, Scan::BlockComment),
    decreases n,
{
    if n > 0 {
        assert(!pair_at(s, i, '*', '/'));
        lemma_in_block_comment(s, i + 1, n - 1);
    }
}

/// A block comment in code, from its `/*` at `i` over `n` characters to the
/// first `*/`, leaves nothing, and the scanner reads code again behind it.
pub proof fn lemma_block_comment_removed(s: Seq<char>, i: int, n: int)
    requires
        pair_at(s, i, '/', '*'),
        0 <= n,
        forall|k: int| i + 2 <= k < i + 2 + n ==> !#[trigger] pair_at(s, k, '*', '/'),
        pair_at(s, i + 2 + n, '*', '/'),
    ensures
        strip_from(s, i, Scan::Code) == strip_from(s, i + n + 4, Scan::Code),
{
    lemma_in_block_comment(s, i + 2, n);
}

/// A block comment without a closing `*/` takes the rest of the text.
pub proof fn lemma_block_comment_to_end(s: Seq<char>, i: int)
    requires
        pair_at(s, i, '/', '*'),
        forall|k: int| i + 2 <= k < s.len() ==> !#[trigger] pair_at(s, k, '*', '/'),
    ensures
        strip_from(s, i, Scan::Code) == Seq::<char>::empty(),
{
    lemma_in_block_comment(s, i + 2, s.len() - i - 2);
}

/// Code that opens no string and no comment comes out as it went in: the
/// character at `i` is copied where it is no quote and begins neither `//`
/// nor `/*`.
pub proof fn lemma_code_kept(s: Seq<char>, i: int)
    requires
        0 <= i < s.len(),
        s[i] != '"',
        !pair_at(s, i, '/', '/'),
        !pair_at(s, i, '/', '*'),
    ensures
        strip_from(s, i, Scan::Code) == seq![s[i]] + strip_from(s, i + 1, Scan::Code),
{
}

/// A text whose first `n` characters hold no trailing comma keeps them all.
pub proof fn lemma_kept_all(s: Seq<char>, n: int)
    requires
        0 <= n <= s.len(),
        forall|i: int| 0 <= i < n ==> !#[trigger] trailing_comma_at(s, i),
    ensures
        kept_prefix(s, n) == s.subrange(0, n),
    decreases n,
{
    if n == 0 {
        assert(kept_prefix(s, n) =~= s.subrange(0, n));
    } else {
        lemma_kept_all(s, n - 1);
        assert(!trailing_comma_at(s, n - 1));
        assert(s.subrange(0, n - 1).push(s[n - 1]) =~= s.subrange(0, n));
    }
}

/// Sanitizing leaves a strict text as it is, and so does sanitizing it twice:
/// a text that holds no comment and no trailing comma is its own strict form.
pub proof fn lemma_sanitize_strict(s: Seq<char>)
    requires
        comment_free(s) == s,
        forall|i: int| !#[trigger] trailing_comma_at(s, i),
    ensures
        sanitized(s) == s,
        sanitized(sanitized(s)) == sanitized(s),
{
    lemma_kept_all(s, s.len() as int);
    assert(s.subrange(0, s.len() as int) =~= s);
}

/// Removes the comments of a JSON-like text.
pub fn remove_comments(content: &str) -> (cleaned: String)
    ensures
        cleaned@ == comment_free(content@),
{
    let s = chars_of(content);
    let n = s.len();
    let mut out = String::new();
    let mut mode = Scan::Code;
    let mut i: usize = 0;
    while i < n
        invariant
            i <= n,
            n == s.len(),
            out@ + strip_from(s@, i as int, mode) == comment_free(s@),
        decreases n - i,
    {
        let c = s[i];
        let ghost before = out@;
        let ghost rest = strip_from(s@, i as int, mode);
        let mut step: usize = 1;
        let mut emit = true;
        let mut next = mode;
        match mode {
            Scan::Escaped => {
                next = Scan::Text;
            },
            Scan::Text => {
                if c == '"' {
                    next = Scan::Code;
                } else if c == '\\' {
                    next = Scan::Escaped;
                }
            },
            Scan::Code => {
                if c == '"' {
                    next = Scan::Text;
                } else if c == '/' && i + 1 < n && s[i + 1] == '/' {
                    next = Scan::LineComment;
                    emit = false;
                    step = 2;
                } else if c == '/' && i + 1 < n && s[i + 1] == '*' {
                    next = Scan::BlockComment;
                    emit = false;
                    step = 2;
                }
            },
            Scan::LineComment => {
                if c == '\n' {
                    next = Scan::Code;
                } else {
                    emit = false;
                }
            },
            Scan::BlockComment => {
                emit = false;
                if c == '*' && i + 1 < n && s[i + 1] == '/' {
                    next = Scan::Code;
                    step = 2;
                }
            },
        }
        if emit {
            out.push(c);
        }
        proof {
            let after = strip_from(s@, i + step, next);
            assert(rest == if emit { seq![c] + after } else { after });
            assert(out@ + after =~= before + rest);
        }
        mode = next;
        i = i + step;
    }
    out
}

/// Removes each comma that only white space parts from a closing `}` or `]`.
pub fn fix_trailing_commas(content: &str) -> (fixed: String)
    ensures
        fixed@ == comma_fixed(content@),
{
    let s = chars_of(content);
    let n = s.len();
    let mut out = String::new();
    let mut i: usize = 0;
    while i < n
        invariant
            i <= n,
            n == s.len(),
            out@ == kept_prefix(s@, i as int),
        decreases n - i,
    {
        let c = s[i];
        let mut keep = true;
        if c == ',' {
            let mut j: usize = i + 1;
            while j < n && is_whitespace(s[j])
                invariant
                    i < j <= n,
                    n == s.len(),
                    next_where(s@, i + 1, false) == next_where(s@, j as int, false),
                decreases n - j,
            {
                j = j + 1;
            }
            if j < n && (s[j] == '}' || s[j] == ']') {
                keep = false;
            }
        }
        if keep {
            out.push(c);
        }
        i = i + 1;
    }
    out
}

/// Turns a JSON-like text with comments and trailing commas into strict text.
pub fn strip_json_comments(content: &str) -> (cleaned: String)
    ensures
        cleaned@ == sanitized(content@),
{
    let bare = remove_comments(content);
    fix_trailing_commas(bare.as_str())
}

} // verus!
