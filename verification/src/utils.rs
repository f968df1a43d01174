//! JSONC comment stripping.
use vstd::prelude::*;

use crate::text::push_char;

verus! {

/// Where the scanner is while stripping comments.
#[derive(PartialEq, Eq, Structural, Clone, Copy)]
pub enum ScanMode {
    /// Ordinary JSON text.
    Code,
    /// Inside a string literal.
    InString,
    /// Inside a `//` comment.
    LineComment,
    /// Inside a `/* */` comment.
    BlockComment,
}

/// Rank used to order mode changes that consume no input.
pub open spec fn mode_rank(m: ScanMode) -> nat {
    match m {
        ScanMode::Code => 0,
        _ => 1,
    }
}

/// The text produced for the characters `b` when scanning starts in mode
/// `m`: each character of a comment becomes a space (newlines inside block
/// comments are kept), string literals and other text are copied character
/// for character.
pub open spec fn strip_from(b: Seq<char>, m: ScanMode) -> Seq<char>
    decreases b.len(), mode_rank(m),
{
    if b.len() == 0 {
        Seq::<char>::empty()
    } else {
        match m {
            ScanMode::InString => {
                if b[0] == '\\' && b.len() > 1 {
                    seq![b[0], b[1]] + strip_from(b.skip(2), ScanMode::InString)
                } else if b[0] == '"' {
                    seq!['"'] + strip_from(b.skip(1), ScanMode::Code)
                } else {
                    seq![b[0]] + strip_from(b.skip(1), ScanMode::InString)
                }
            },
            ScanMode::Code => {
                if b[0] == '"' {
                    seq!['"'] + strip_from(b.skip(1), ScanMode::InString)
                } else if b[0] == '/' && b.len() > 1 && b[1] == '/' {
                    seq![' ', ' '] + strip_from(b.skip(2), ScanMode::LineComment)
                } else if b[0] == '/' && b.len() > 1 && b[1] == '*' {
                    seq![' ', ' '] + strip_from(b.skip(2), ScanMode::BlockComment)
                } else {
                    seq![b[0]] + strip_from(b.skip(1), ScanMode::Code)
                }
            },
            ScanMode::LineComment => {
                if b[0] == '\n' {
                    strip_from(b, ScanMode::Code)
                } else {
                    seq![' '] + strip_from(b.skip(1), ScanMode::LineComment)
                }
            },
            ScanMode::BlockComment => {
                if b.len() > 1 && b[0] == '*' && b[1] == '/' {
                    seq![' ', ' '] + strip_from(b.skip(2), ScanMode::Code)
                } else if b[0] == '\n' {
                    seq!['\n'] + strip_from(b.skip(1), ScanMode::BlockComment)
                } else {
                    seq![' '] + strip_from(b.skip(1), ScanMode::BlockComment)
                }
            },
        }
    }
}

/// The result of stripping JSONC comments from the text `b`.
pub open spec fn strip_jsonc(b: Seq<char>) -> Seq<char> {
    strip_from(b, ScanMode::Code)
}

/// Strip JSONC comments (`//` and `/* */`) from input, preserving string
/// contents. Comments are replaced with spaces (newlines inside block
/// comments are kept) so that character positions stay stable.
pub fn strip_jsonc_comments(input: &str) -> (result: String)
    ensures
        result@ == strip_jsonc(input@),
{
    let bytes = crate::text::chars_of(input);
    let len = bytes.len();
    let mut result = String::new();
    let mut i: usize = 0;
    let mut mode = ScanMode::Code;
    assert(bytes@.skip(0) =~= bytes@);
    assert(result@ + strip_jsonc(bytes@) =~= strip_jsonc(bytes@));
    while i < len
        invariant
            len == bytes@.len(),
            bytes@ == input@,
            i <= len,
            result@ + strip_from(bytes@.skip(i as int), mode) == strip_jsonc(bytes@),
        decreases len - i, mode_rank(mode),
    {
        let ghost rest = bytes@.skip(i as int);
        let ghost before = result@;
        let b = bytes[i];
        assert(rest[0] == b);
        match mode {
            ScanMode::InString => {
                if b == '\\' && i + 1 < len {
                    push_char(&mut result, b);
                    push_char(&mut result, bytes[i + 1]);
                    assert(rest[1] == bytes@[i + 1]);
                    assert(rest.skip(2) =~= bytes@.skip(i + 2));
                    i = i + 2;
                } else if b == '"' {
                    push_char(&mut result, '"');
                    mode = ScanMode::Code;
                    assert(rest.skip(1) =~= bytes@.skip(i + 1));
                    i = i + 1;
                } else {
                    push_char(&mut result, b);
                    assert(rest.skip(1) =~= bytes@.skip(i + 1));
                    i = i + 1;
                }
            },
            ScanMode::Code => {
                if b == '"' {
                    push_char(&mut result, '"');
                    mode = ScanMode::InString;
                    assert(rest.skip(1) =~= bytes@.skip(i + 1));
                    i = i + 1;
                } else if b == '/' && i + 1 < len && bytes[i + 1] == '/' {
                    push_char(&mut result, ' ');
                    push_char(&mut result, ' ');
                    mode = ScanMode::LineComment;
                    assert(rest[1] == bytes@[i + 1]);
                    assert(rest.skip(2) =~= bytes@.skip(i + 2));
                    i = i + 2;
                } else if b == '/' && i + 1 < len && bytes[i + 1] == '*' {
                    push_char(&mut result, ' ');
                    push_char(&mut result, ' ');
                    mode = ScanMode::BlockComment;
                    assert(rest[1] == bytes@[i + 1]);
                    assert(rest.skip(2) =~= bytes@.skip(i + 2));
                    i = i + 2;
                } else {
                    assert(b == '/' && i + 1 < len ==> rest[1] == bytes@[i + 1]);
                    push_char(&mut result, b);
                    assert(rest.skip(1) =~= bytes@.skip(i + 1));
                    i = i + 1;
                }
            },
            ScanMode::LineComment => {
                if b == '\n' {
                    mode = ScanMode::Code;
                } else {
                    push_char(&mut result, ' ');
                    assert(rest.skip(1) =~= bytes@.skip(i + 1));
                    i = i + 1;
                }
            },
            ScanMode::BlockComment => {
                if i + 1 < len && b == '*' && bytes[i + 1] == '/' {
                    push_char(&mut result, ' ');
                    push_char(&mut result, ' ');
                    mode = ScanMode::Code;
                    assert(rest[1] == bytes@[i + 1]);
                    assert(rest.skip(2) =~= bytes@.skip(i + 2));
                    i = i + 2;
                } else if b == '\n' {
                    assert(i + 1 < len && b == '*' ==> rest[1] == bytes@[i + 1]);
                    push_char(&mut result, '\n');
                    assert(rest.skip(1) =~= bytes@.skip(i + 1));
                    i = i + 1;
                } else {
                    assert(i + 1 < len && b == '*' ==> rest[1] == bytes@[i + 1]);
                    push_char(&mut result, ' ');
                    assert(rest.skip(1) =~= bytes@.skip(i + 1));
                    i = i + 1;
                }
            },
        }
    }
    assert(bytes@.skip(len as int) =~= Seq::<char>::empty());
    assert(result@ + Seq::<char>::empty() =~= result@);
    result
}

/// `t` is `s` with some characters other than newlines turned into spaces.
pub open spec fn blanked(s: Seq<char>, t: Seq<char>) -> bool {
    &&& s.len() == t.len()
    &&& forall|i: int| 0 <= i < s.len() ==> (#[trigger] t[i] == s[i] || (t[i] == ' ' && s[i] != '\n'))
}

proof fn lemma_blanked_concat(s1: Seq<char>, t1: Seq<char>, s2: Seq<char>, t2: Seq<char>)
    requires
        blanked(s1, t1),
        blanked(s2, t2),
    ensures
        blanked(s1 + s2, t1 + t2),
{
    let s = s1 + s2;
    let t = t1 + t2;
    assert forall|i: int| 0 <= i < s.len() implies (#[trigger] t[i] == s[i] || (t[i] == ' ' && s[i] != '\n')) by {
        if i < s1.len() {
            assert(t[i] == t1[i] && s[i] == s1[i]);
        } else {
            assert(t[i] == t2[i - s1.len()] && s[i] == s2[i - s1.len()]);
        }
    }
}

/// Stripping from any mode blanks characters and keeps everything else.
proof fn lemma_strip_blanks(b: Seq<char>, m: ScanMode)
    ensures
        blanked(b, strip_from(b, m)),
    decreases b.len(), mode_rank(m),
{
    if b.len() == 0 {
        return;
    }
    let out = strip_from(b, m);
    let two = b.len() > 1;
    match m {
        ScanMode::InString => {
            if b[0] == '\\' && two {
                lemma_strip_blanks(b.skip(2), ScanMode::InString);
                lemma_blanked_concat(b.take(2), seq![b[0], b[1]], b.skip(2), strip_from(b.skip(2), m));
                assert(b.take(2) + b.skip(2) =~= b);
            } else {
                let next = if b[0] == '"' { ScanMode::Code } else { ScanMode::InString };
                lemma_strip_blanks(b.skip(1), next);
                lemma_blanked_concat(b.take(1), seq![b[0]], b.skip(1), strip_from(b.skip(1), next));
                assert(b.take(1) + b.skip(1) =~= b);
                assert(out == seq![b[0]] + strip_from(b.skip(1), next));
            }
        },
        ScanMode::Code => {
            if b[0] == '/' && two && (b[1] == '/' || b[1] == '*') {
                let next = if b[1] == '/' { ScanMode::LineComment } else { ScanMode::BlockComment };
                lemma_strip_blanks(b.skip(2), next);
                lemma_blanked_concat(b.take(2), seq![' ', ' '], b.skip(2), strip_from(b.skip(2), next));
                assert(b.take(2) + b.skip(2) =~= b);
            } else {
                let next = if b[0] == '"' { ScanMode::InString } else { ScanMode::Code };
                lemma_strip_blanks(b.skip(1), next);
                lemma_blanked_concat(b.take(1), seq![b[0]], b.skip(1), strip_from(b.skip(1), next));
                assert(b.take(1) + b.skip(1) =~= b);
                assert(out == seq![b[0]] + strip_from(b.skip(1), next));
            }
        },
        ScanMode::LineComment => {
            if b[0] == '\n' {
                lemma_strip_blanks(b, ScanMode::Code);
            } else {
                lemma_strip_blanks(b.skip(1), m);
                lemma_blanked_concat(b.take(1), seq![' '], b.skip(1), strip_from(b.skip(1), m));
                assert(b.take(1) + b.skip(1) =~= b);
            }
        },
        ScanMode::BlockComment => {
            if two && b[0] == '*' && b[1] == '/' {
                lemma_strip_blanks(b.skip(2), ScanMode::Code);
                lemma_blanked_concat(b.take(2), seq![' ', ' '], b.skip(2), strip_from(b.skip(2), ScanMode::Code));
                assert(b.take(2) + b.skip(2) =~= b);
            } else {
                let c = if b[0] == '\n' { '\n' } else { ' ' };
                lemma_strip_blanks(b.skip(1), m);
                lemma_blanked_concat(b.take(1), seq![c], b.skip(1), strip_from(b.skip(1), m));
                assert(b.take(1) + b.skip(1) =~= b);
                assert(out == seq![c] + strip_from(b.skip(1), m));
            }
        },
    }
}

/// Stripping comments keeps the text's length and every character's
/// position: each character is kept or, outside newlines, replaced by a
/// space, and newlines stay exactly where they were.
pub proof fn law_stripping_keeps_positions(s: Seq<char>)
    ensures
        strip_jsonc(s).len() == s.len(),
        forall|i: int|
            0 <= i < s.len() ==> (#[trigger] strip_jsonc(s)[i] == s[i] || (strip_jsonc(s)[i] == ' ' && s[i]
                != '\n')),
        forall|i: int| 0 <= i < s.len() ==> (#[trigger] strip_jsonc(s)[i] == '\n' <==> s[i] == '\n'),
{
    lemma_strip_blanks(s, ScanMode::Code);
}

/// The mode in which stripped text reads the same as what produced it:
/// string literals stay string literals, everything else reads as code.
pub open spec fn mode_after(m: ScanMode) -> ScanMode {
    match m {
        ScanMode::InString => ScanMode::InString,
        _ => ScanMode::Code,
    }
}

/// Code that starts with a plain character is copied from it.
proof fn lemma_code_cons(c: char, y: Seq<char>)
    requires
        c != '"',
        c == '/' ==> y.len() == 0 || (y[0] != '/' && y[0] != '*'),
    ensures
        strip_from(seq![c] + y, ScanMode::Code) == seq![c] + strip_from(y, ScanMode::Code),
{
    let x = seq![c] + y;
    assert(x[0] == c);
    assert(x.skip(1) =~= y);
    if x.len() > 1 {
        assert(x[1] == y[0]);
    }
}

/// A string literal's plain character is copied.
proof fn lemma_string_cons(c: char, y: Seq<char>)
    requires
        c != '"',
        c == '\\' ==> y.len() == 0,
    ensures
        strip_from(seq![c] + y, ScanMode::InString) == seq![c] + strip_from(y, ScanMode::InString),
{
    let x = seq![c] + y;
    assert(x[0] == c);
    assert(x.skip(1) =~= y);
}

/// Stripped code starts with the character it was stripped from, when that
/// is not a slash.
proof fn lemma_code_first(x: Seq<char>)
    requires
        x.len() > 0,
        x[0] != '/',
    ensures
        strip_from(x, ScanMode::Code).len() > 0,
        strip_from(x, ScanMode::Code)[0] == x[0],
{
}

/// Stripping what was stripped changes nothing.
proof fn lemma_strip_idempotent(b: Seq<char>, m: ScanMode)
    ensures
        strip_from(strip_from(b, m), mode_after(m)) == strip_from(b, m),
    decreases b.len(), mode_rank(m),
{
    if b.len() == 0 {
        return;
    }
    let two = b.len() > 1;
    match m {
        ScanMode::InString => {
            if b[0] == '\\' && two {
                let r = strip_from(b.skip(2), m);
                lemma_strip_idempotent(b.skip(2), m);
                let x = seq![b[0], b[1]] + r;
                assert(x[0] == b[0] && x[1] == b[1] && x.len() > 1);
                assert(x.skip(2) =~= r);
            } else if b[0] == '"' {
                let r = strip_from(b.skip(1), ScanMode::Code);
                lemma_strip_idempotent(b.skip(1), ScanMode::Code);
                let x = seq!['"'] + r;
                assert(x[0] == '"');
                assert(x.skip(1) =~= r);
            } else {
                let r = strip_from(b.skip(1), m);
                lemma_strip_idempotent(b.skip(1), m);
                if b[0] == '\\' {
                    assert(b.skip(1).len() == 0);
                }
                lemma_string_cons(b[0], r);
            }
        },
        ScanMode::Code => {
            if b[0] == '"' {
                let r = strip_from(b.skip(1), ScanMode::InString);
                lemma_strip_idempotent(b.skip(1), ScanMode::InString);
                let x = seq!['"'] + r;
                assert(x[0] == '"');
                assert(x.skip(1) =~= r);
            } else if b[0] == '/' && two && (b[1] == '/' || b[1] == '*') {
                let next = if b[1] == '/' { ScanMode::LineComment } else { ScanMode::BlockComment };
                let r = strip_from(b.skip(2), next);
                lemma_strip_idempotent(b.skip(2), next);
                lemma_code_cons(' ', r);
                lemma_code_cons(' ', seq![' '] + r);
                assert(seq![' ', ' '] + r =~= seq![' '] + (seq![' '] + r));
                assert(seq![' '] + (seq![' '] + r) =~= seq![' ', ' '] + r);
            } else {
                let r = strip_from(b.skip(1), ScanMode::Code);
                lemma_strip_idempotent(b.skip(1), ScanMode::Code);
                if b[0] == '/' && r.len() > 0 {
                    lemma_code_first(b.skip(1));
                }
                lemma_code_cons(b[0], r);
            }
        },
        ScanMode::LineComment => {
            if b[0] == '\n' {
                lemma_strip_idempotent(b, ScanMode::Code);
            } else {
                let r = strip_from(b.skip(1), m);
                lemma_strip_idempotent(b.skip(1), m);
                lemma_code_cons(' ', r);
            }
        },
        ScanMode::BlockComment => {
            if two && b[0] == '*' && b[1] == '/' {
                let r = strip_from(b.skip(2), ScanMode::Code);
                lemma_strip_idempotent(b.skip(2), ScanMode::Code);
                lemma_code_cons(' ', r);
                lemma_code_cons(' ', seq![' '] + r);
                assert(seq![' ', ' '] + r =~= seq![' '] + (seq![' '] + r));
            } else {
                let c = if b[0] == '\n' { '\n' } else { ' ' };
                let r = strip_from(b.skip(1), m);
                lemma_strip_idempotent(b.skip(1), m);
                lemma_code_cons(c, r);
            }
        },
    }
}

/// Stripping comments twice gives what stripping once gives: no comment is
/// left outside string literals.
pub proof fn law_stripping_is_idempotent(s: Seq<char>)
    ensures
        strip_jsonc(strip_jsonc(s)) == strip_jsonc(s),
{
    lemma_strip_idempotent(s, ScanMode::Code);
}

} // verus!
