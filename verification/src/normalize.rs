//! SQL DDL normalization.
//!
//! Two DDL fragments are treated as equivalent by the diff engine exactly when
//! their normalized forms are equal.  Normalization applies, in order:
//!
//! 1. strip line comments (`--` through the end of the line, newline included;
//!    a trailing comment with no terminating newline is kept verbatim),
//! 2. collapse every run of whitespace (space, tab, carriage return, newline)
//!    to a single space,
//! 3. remove spaces next to `(`, `)` and `,`,
//! 4. strip double quotes that surround a plain word (a run of ASCII
//!    alphanumerics and underscores),
//! 5. trim leading and trailing whitespace.
//!
//! The rule set is conservative: it may leave two semantically equal fragments
//! distinct, but it never maps two semantically different fragments together.

use vstd::prelude::*;

verus! {

use crate::text::{append_chars, chars_string, str_chars};

/// Whitespace collapsed by normalization: space, tab, carriage return, newline.
pub open spec fn is_sql_space(c: char) -> bool {
    c == ' ' || c == '\t' || c == '\r' || c == '\n'
}

/// Punctuation whose neighbouring spaces are removed.
pub open spec fn is_punct(c: char) -> bool {
    c == '(' || c == ')' || c == ','
}

/// A character of a plain identifier word: ASCII alphanumeric or underscore.
pub open spec fn is_word_char(c: char) -> bool {
    ('a' as u32) <= (c as u32) <= ('z' as u32) || ('A' as u32) <= (c as u32) <= ('Z' as u32) || (
    '0' as u32) <= (c as u32) <= ('9' as u32) || c == '_'
}

/// Comment stripping, one character at a time.  While inside a candidate
/// comment the characters seen so far are kept in `buf`: a comment is only
/// dropped once its terminating newline arrives; at the end of the text an
/// unterminated comment is emitted unchanged.
pub open spec fn strip_comments_go(s: Seq<char>, in_comment: bool, buf: Seq<char>) -> Seq<char>
    decreases s.len(),
{
    if s.len() == 0 {
        if in_comment {
            buf
        } else {
            Seq::empty()
        }
    } else if in_comment {
        if s[0] == '\n' {
            strip_comments_go(s.drop_first(), false, Seq::empty())
        } else {
            strip_comments_go(s.drop_first(), true, buf.push(s[0]))
        }
    } else if s.len() >= 2 && s[0] == '-' && s[1] == '-' {
        strip_comments_go(s.subrange(2, s.len() as int), true, seq!['-', '-'])
    } else {
        seq![s[0]] + strip_comments_go(s.drop_first(), false, Seq::empty())
    }
}

/// Stage 1: strip line comments.
pub open spec fn strip_comments(s: Seq<char>) -> Seq<char> {
    strip_comments_go(s, false, Seq::empty())
}

/// Whitespace collapsing, one character at a time; `in_run` records whether
/// the previous character was whitespace (whose run already emitted a space).
pub open spec fn collapse_spaces_go(s: Seq<char>, in_run: bool) -> Seq<char>
    decreases s.len(),
{
    if s.len() == 0 {
        Seq::empty()
    } else if is_sql_space(s[0]) {
        if in_run {
            collapse_spaces_go(s.drop_first(), true)
        } else {
            seq![' '] + collapse_spaces_go(s.drop_first(), true)
        }
    } else {
        seq![s[0]] + collapse_spaces_go(s.drop_first(), false)
    }
}

/// Stage 2: collapse each whitespace run to a single space.
pub open spec fn collapse_spaces(s: Seq<char>) -> Seq<char> {
    collapse_spaces_go(s, false)
}

/// A run of `n` spaces.
pub open spec fn spaces(n: nat) -> Seq<char> {
    Seq::new(n, |i: int| ' ')
}

/// Space removal around punctuation, one character at a time.  `pending`
/// counts spaces whose fate is undecided (dropped if punctuation follows,
/// emitted otherwise); `after_punct` is true just after punctuation, where
/// spaces are dropped outright.
pub open spec fn tighten_punct_go(s: Seq<char>, pending: nat, after_punct: bool) -> Seq<char>
    decreases s.len(),
{
    if s.len() == 0 {
        spaces(pending)
    } else if s[0] == ' ' {
        if after_punct {
            tighten_punct_go(s.drop_first(), 0, true)
        } else {
            tighten_punct_go(s.drop_first(), pending + 1, false)
        }
    } else if is_punct(s[0]) {
        seq![s[0]] + tighten_punct_go(s.drop_first(), 0, true)
    } else {
        spaces(pending) + seq![s[0]] + tighten_punct_go(s.drop_first(), 0, false)
    }
}

/// Stage 3: remove spaces immediately inside `(`, `)` and around `,`.
pub open spec fn tighten_punct(s: Seq<char>) -> Seq<char> {
    tighten_punct_go(s, 0, false)
}

/// Quote stripping, one character at a time.  After an opening double quote
/// the word characters seen so far are kept in `buf`; a closing quote after a
/// non-empty word drops both quotes, anything else emits the pending text
/// unchanged.
pub open spec fn strip_quotes_go(s: Seq<char>, in_quote: bool, buf: Seq<char>) -> Seq<char>
    decreases s.len(),
{
    if s.len() == 0 {
        if in_quote {
            seq!['"'] + buf
        } else {
            Seq::empty()
        }
    } else if in_quote {
        if is_word_char(s[0]) {
            strip_quotes_go(s.drop_first(), true, buf.push(s[0]))
        } else if s[0] == '"' {
            if buf.len() > 0 {
                buf + strip_quotes_go(s.drop_first(), false, Seq::empty())
            } else {
                seq!['"'] + strip_quotes_go(s.drop_first(), true, Seq::empty())
            }
        } else {
            seq!['"'] + buf + seq![s[0]] + strip_quotes_go(s.drop_first(), false, Seq::empty())
        }
    } else if s[0] == '"' {
        strip_quotes_go(s.drop_first(), true, Seq::empty())
    } else {
        seq![s[0]] + strip_quotes_go(s.drop_first(), false, Seq::empty())
    }
}

/// Stage 4: strip double quotes surrounding a plain word.
pub open spec fn strip_quotes(s: Seq<char>) -> Seq<char> {
    strip_quotes_go(s, false, Seq::empty())
}

/// Leading whitespace removal.
pub open spec fn trim_start_spec(s: Seq<char>) -> Seq<char>
    decreases s.len(),
{
    if s.len() > 0 && is_sql_space(s[0]) {
        trim_start_spec(s.drop_first())
    } else {
        s
    }
}

/// Trailing whitespace removal.
pub open spec fn trim_end_spec(s: Seq<char>) -> Seq<char>
    decreases s.len(),
{
    if s.len() > 0 && is_sql_space(s.last()) {
        trim_end_spec(s.drop_last())
    } else {
        s
    }
}

/// Stage 5: trim whitespace from both ends.
pub open spec fn trim_spec(s: Seq<char>) -> Seq<char> {
    trim_end_spec(trim_start_spec(s))
}

/// The canonical form of a DDL fragment: all five stages in order.
pub open spec fn normalize_spec(s: Seq<char>) -> Seq<char> {
    trim_spec(strip_quotes(tighten_punct(collapse_spaces(strip_comments(s)))))
}

fn is_sql_space_exec(c: char) -> (b: bool)
    ensures
        b == is_sql_space(c),
{
    c == ' ' || c == '\t' || c == '\r' || c == '\n'
}

fn is_punct_exec(c: char) -> (b: bool)
    ensures
        b == is_punct(c),
{
    c == '(' || c == ')' || c == ','
}

fn is_word_char_exec(c: char) -> (b: bool)
    ensures
        b == is_word_char(c),
{
    let u = c as u32;
    (97 <= u && u <= 122) || (65 <= u && u <= 90) || (48 <= u && u <= 57) || c == '_'
}

fn strip_comments_exec(s: &Vec<char>) -> (r: Vec<char>)
    ensures
        r@ == strip_comments(s@),
{
    let mut out: Vec<char> = Vec::new();
    let mut buf: Vec<char> = Vec::new();
    let mut in_comment = false;
    let mut i: usize = 0;
    proof {
        assert(s@.subrange(0, s@.len() as int) =~= s@);
        assert(out@ + strip_comments_go(s@, false, buf@) =~= strip_comments_go(s@, false, buf@));
    }
    while i < s.len()
        invariant
            i <= s@.len(),
            strip_comments(s@) == out@ + strip_comments_go(
                s@.subrange(i as int, s@.len() as int),
                in_comment,
                buf@,
            ),
        decreases s@.len() - i,
    {
        let ghost rest = s@.subrange(i as int, s@.len() as int);
        proof {
            assert(rest.drop_first() =~= s@.subrange(i + 1, s@.len() as int));
            assert(rest[0] == s@[i as int]);
            if i + 1 < s@.len() {
                assert(rest[1] == s@[i + 1]);
            }
        }
        let c = s[i];
        if in_comment {
            if c == '\n' {
                buf = Vec::new();
                in_comment = false;
            } else {
                buf.push(c);
            }
            i = i + 1;
        } else if c == '-' && i + 1 < s.len() && s[i + 1] == '-' {
            proof {
                assert(rest.subrange(2, rest.len() as int) =~= s@.subrange(
                    i + 2,
                    s@.len() as int,
                ));
                assert(rest[1] == s@[i + 1]);
            }
            buf = Vec::new();
            buf.push('-');
            buf.push('-');
            proof {
                assert(buf@ =~= seq!['-', '-']);
            }
            in_comment = true;
            i = i + 2;
        } else {
            let ghost out0 = out@;
            proof {
                assert(!(rest.len() >= 2 && rest[0] == '-' && rest[1] == '-'));
            }
            out.push(c);
            i = i + 1;
            proof {
                let tail = strip_comments_go(
                    s@.subrange(i as int, s@.len() as int),
                    false,
                    Seq::empty(),
                );
                assert(out@ =~= out0 + seq![c]);
                assert(out0 + (seq![c] + tail) =~= (out0 + seq![c]) + tail);
            }
        }
    }
    proof {
        assert(s@.subrange(i as int, s@.len() as int) =~= Seq::<char>::empty());
    }
    if in_comment {
        let mut j: usize = 0;
        proof {
            assert(buf@.subrange(0, buf@.len() as int) =~= buf@);
        }
        while j < buf.len()
            invariant
                j <= buf@.len(),
                strip_comments(s@) == out@ + buf@.subrange(j as int, buf@.len() as int),
            decreases buf@.len() - j,
        {
            proof {
                assert(buf@.subrange(j as int, buf@.len() as int) =~= seq![buf@[j as int]]
                    + buf@.subrange(j + 1, buf@.len() as int));
            }
            out.push(buf[j]);
            j = j + 1;
        }
        proof {
            assert(buf@.subrange(j as int, buf@.len() as int) =~= Seq::<char>::empty());
        }
    }
    out
}

fn collapse_spaces_exec(s: &Vec<char>) -> (r: Vec<char>)
    ensures
        r@ == collapse_spaces(s@),
{
    let mut out: Vec<char> = Vec::new();
    let mut in_run = false;
    let mut i: usize = 0;
    proof {
        assert(s@.subrange(0, s@.len() as int) =~= s@);
    }
    while i < s.len()
        invariant
            i <= s@.len(),
            collapse_spaces(s@) == out@ + collapse_spaces_go(
                s@.subrange(i as int, s@.len() as int),
                in_run,
            ),
        decreases s@.len() - i,
    {
        let ghost rest = s@.subrange(i as int, s@.len() as int);
        proof {
            assert(rest.drop_first() =~= s@.subrange(i + 1, s@.len() as int));
            assert(rest[0] == s@[i as int]);
        }
        let c = s[i];
        if is_sql_space_exec(c) {
            if !in_run {
                out.push(' ');
                in_run = true;
            }
        } else {
            out.push(c);
            in_run = false;
        }
        i = i + 1;
    }
    proof {
        assert(s@.subrange(i as int, s@.len() as int) =~= Seq::<char>::empty());
    }
    out
}

fn push_spaces(out: &mut Vec<char>, n: usize)
    ensures
        final(out)@ == old(out)@ + spaces(n as nat),
{
    let mut j: usize = 0;
    while j < n
        invariant
            j <= n,
            out@ == old(out)@ + spaces(j as nat),
        decreases n - j,
    {
        out.push(' ');
        j = j + 1;
        proof {
            assert(old(out)@ + spaces((j - 1) as nat) + seq![' '] =~= old(out)@ + spaces(j as nat));
        }
    }
    proof {
        assert(out@ =~= old(out)@ + spaces(j as nat));
    }
}

fn tighten_punct_exec(s: &Vec<char>) -> (r: Vec<char>)
    ensures
        r@ == tighten_punct(s@),
{
    let mut out: Vec<char> = Vec::new();
    let mut pending: usize = 0;
    let mut after_punct = false;
    let mut i: usize = 0;
    proof {
        assert(s@.subrange(0, s@.len() as int) =~= s@);
    }
    while i < s.len()
        invariant
            i <= s@.len(),
            pending <= i,
            tighten_punct(s@) == out@ + tighten_punct_go(
                s@.subrange(i as int, s@.len() as int),
                pending as nat,
                after_punct,
            ),
        decreases s@.len() - i,
    {
        let ghost rest = s@.subrange(i as int, s@.len() as int);
        proof {
            assert(rest.drop_first() =~= s@.subrange(i + 1, s@.len() as int));
            assert(rest[0] == s@[i as int]);
        }
        let c = s[i];
        if c == ' ' {
            if after_punct {
                pending = 0;
            } else {
                pending = pending + 1;
            }
        } else if is_punct_exec(c) {
            let ghost out0 = out@;
            out.push(c);
            pending = 0;
            after_punct = true;
            proof {
                let tail = tighten_punct_go(rest.drop_first(), 0, true);
                assert(out@ =~= out0 + seq![c]);
                assert(out0 + (seq![c] + tail) =~= (out0 + seq![c]) + tail);
            }
        } else {
            let ghost out0 = out@;
            push_spaces(&mut out, pending);
            out.push(c);
            proof {
                let tail = tighten_punct_go(rest.drop_first(), 0, false);
                assert(out@ =~= out0 + spaces(pending as nat) + seq![c]);
                assert(out0 + (spaces(pending as nat) + seq![c] + tail) =~= (out0 + spaces(
                    pending as nat,
                ) + seq![c]) + tail);
            }
            pending = 0;
            after_punct = false;
        }
        i = i + 1;
    }
    proof {
        assert(s@.subrange(i as int, s@.len() as int) =~= Seq::<char>::empty());
    }
    push_spaces(&mut out, pending);
    out
}

fn strip_quotes_exec(s: &Vec<char>) -> (r: Vec<char>)
    ensures
        r@ == strip_quotes(s@),
{
    let mut out: Vec<char> = Vec::new();
    let mut buf: Vec<char> = Vec::new();
    let mut in_quote = false;
    let mut i: usize = 0;
    proof {
        assert(s@.subrange(0, s@.len() as int) =~= s@);
        assert(out@ + strip_quotes_go(s@, false, buf@) =~= strip_quotes_go(s@, false, buf@));
    }
    while i < s.len()
        invariant
            i <= s@.len(),
            strip_quotes(s@) == out@ + strip_quotes_go(
                s@.subrange(i as int, s@.len() as int),
                in_quote,
                buf@,
            ),
        decreases s@.len() - i,
    {
        let ghost rest = s@.subrange(i as int, s@.len() as int);
        proof {
            assert(rest.drop_first() =~= s@.subrange(i + 1, s@.len() as int));
            assert(rest[0] == s@[i as int]);
        }
        let c = s[i];
        if in_quote {
            if is_word_char_exec(c) {
                buf.push(c);
            } else if c == '"' {
                if buf.len() > 0 {
                    let ghost out0 = out@;
                    let ghost buf0 = buf@;
                    append_chars(&mut out, &buf);
                    buf = Vec::new();
                    in_quote = false;
                    proof {
                        let tail = strip_quotes_go(rest.drop_first(), false, Seq::empty());
                        assert(out0 + (buf0 + tail) =~= (out0 + buf0) + tail);
                    }
                } else {
                    let ghost out0 = out@;
                    out.push('"');
                    proof {
                        assert(buf@ =~= Seq::<char>::empty());
                        let tail = strip_quotes_go(rest.drop_first(), true, Seq::empty());
                        assert(out@ =~= out0 + seq!['"']);
                        assert(out0 + (seq!['"'] + tail) =~= (out0 + seq!['"']) + tail);
                    }
                }
            } else {
                let ghost out0 = out@;
                let ghost buf0 = buf@;
                out.push('"');
                append_chars(&mut out, &buf);
                out.push(c);
                buf = Vec::new();
                in_quote = false;
                proof {
                    let tail = strip_quotes_go(rest.drop_first(), false, Seq::empty());
                    assert(out@ =~= out0 + seq!['"'] + buf0 + seq![c]);
                    assert(out0 + (seq!['"'] + buf0 + seq![c] + tail) =~= (out0 + seq!['"'] + buf0
                        + seq![c]) + tail);
                }
            }
        } else if c == '"' {
            in_quote = true;
            buf = Vec::new();
        } else {
            let ghost out0 = out@;
            out.push(c);
            proof {
                let tail = strip_quotes_go(rest.drop_first(), false, Seq::empty());
                assert(out@ =~= out0 + seq![c]);
                assert(out0 + (seq![c] + tail) =~= (out0 + seq![c]) + tail);
            }
        }
        i = i + 1;
    }
    proof {
        assert(s@.subrange(i as int, s@.len() as int) =~= Seq::<char>::empty());
    }
    if in_quote {
        let ghost out0 = out@;
        let ghost buf0 = buf@;
        out.push('"');
        append_chars(&mut out, &buf);
        proof {
            assert(out@ =~= out0 + (seq!['"'] + buf0));
        }
    }
    out
}

proof fn lemma_trim_start(s: Seq<char>, k: int)
    requires
        0 <= k <= s.len(),
        forall|j: int| 0 <= j < k ==> is_sql_space(s[j]),
        k == s.len() || !is_sql_space(s[k]),
    ensures
        trim_start_spec(s) == s.subrange(k, s.len() as int),
    decreases k,
{
    if k == 0 {
        assert(s.subrange(0, s.len() as int) =~= s);
    } else {
        let t = s.drop_first();
        assert(is_sql_space(s[0]));
        assert(forall|j: int| 0 <= j < k - 1 ==> is_sql_space(t[j]));
        lemma_trim_start(t, k - 1);
        assert(t.subrange(k - 1, t.len() as int) =~= s.subrange(k, s.len() as int));
    }
}

proof fn lemma_trim_end(s: Seq<char>, k: int)
    requires
        0 <= k <= s.len(),
        forall|j: int| k <= j < s.len() ==> is_sql_space(s[j]),
        k == 0 || !is_sql_space(s[k - 1]),
    ensures
        trim_end_spec(s) == s.subrange(0, k),
    decreases s.len() - k,
{
    if k == s.len() {
        assert(s.subrange(0, s.len() as int) =~= s);
    } else {
        let t = s.drop_last();
        assert(is_sql_space(s.last()));
        assert(forall|j: int| k <= j < t.len() ==> t[j] == s[j] && is_sql_space(t[j]));
        lemma_trim_end(t, k);
        assert(t.subrange(0, k) =~= s.subrange(0, k));
    }
}

fn trim_exec(s: &Vec<char>) -> (r: Vec<char>)
    ensures
        r@ == trim_spec(s@),
{
    let mut start: usize = 0;
    while start < s.len() && is_sql_space_exec(s[start])
        invariant
            start <= s@.len(),
            forall|j: int| 0 <= j < start ==> is_sql_space(s@[j]),
        decreases s@.len() - start,
    {
        start = start + 1;
    }
    proof {
        lemma_trim_start(s@, start as int);
    }
    let mut end: usize = s.len();
    while end > start && is_sql_space_exec(s[end - 1])
        invariant
            start <= end <= s@.len(),
            forall|j: int| end <= j < s@.len() ==> is_sql_space(s@[j]),
        decreases end,
    {
        end = end - 1;
    }
    let ghost t = s@.subrange(start as int, s@.len() as int);
    proof {
        assert(forall|j: int| end - start <= j < t.len() ==> t[j] == s@[j + start]
            && is_sql_space(t[j]));
        if end > start {
            assert(t[end - start - 1] == s@[end - 1]);
        }
        lemma_trim_end(t, end - start);
    }
    let mut out: Vec<char> = Vec::new();
    let mut i: usize = start;
    while i < end
        invariant
            start <= i <= end <= s@.len(),
            out@ == s@.subrange(start as int, i as int),
        decreases end - i,
    {
        out.push(s[i]);
        i = i + 1;
        proof {
            assert(s@.subrange(start as int, i - 1).push(s@[i - 1]) =~= s@.subrange(
                start as int,
                i as int,
            ));
        }
    }
    proof {
        assert(out@ =~= t.subrange(0, end - start));
    }
    out
}

/// Canonicalizes a DDL fragment so that semantically equivalent fragments
/// compare equal: comments stripped, whitespace collapsed, spaces around
/// punctuation removed, quoted plain words unquoted, ends trimmed.
pub fn normalize_sql(sql: &str) -> (r: String)
    ensures
        r@ == normalize_spec(sql@),
{
    let cs = str_chars(sql);
    let a = strip_comments_exec(&cs);
    let b = collapse_spaces_exec(&a);
    let c = tighten_punct_exec(&b);
    let d = strip_quotes_exec(&c);
    let e = trim_exec(&d);
    chars_string(&e)
}

} // verus!

