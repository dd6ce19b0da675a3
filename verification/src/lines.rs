//! Classification of single record-file lines.
//!
//! A line is split on whitespace; the token at position 1 (the second field)
//! decides: `"*"` marks a point, `"lwt"` marks a last-will-testament record,
//! anything else — including a line with fewer than two fields — is ignored.

use vstd::prelude::*;

verus! {

/// What one record-file line stands for.
#[derive(Clone, Copy, Debug, PartialEq, Eq, Structural)]
pub enum LineClass {
    Point,
    Lwt,
    Ignored,
}

/// Whitespace as the splitter sees it: the Unicode `White_Space` code points.
pub open spec fn is_space_char(c: char) -> bool {
    let u = c as u32;
    u == 0x09 || u == 0x0A || u == 0x0B || u == 0x0C || u == 0x0D || u == 0x20 || u == 0x85
        || u == 0xA0 || u == 0x1680 || (0x2000 <= u && u <= 0x200A) || u == 0x2028 || u == 0x2029
        || u == 0x202F || u == 0x205F || u == 0x3000
}

/// First position at or after `i` that does not hold whitespace.
pub open spec fn space_end(s: Seq<char>, i: int) -> int
    decreases s.len() - i,
{
    if i < 0 || i >= s.len() || !is_space_char(s[i]) {
        i
    } else {
        space_end(s, i + 1)
    }
}

/// First position at or after `i` that holds whitespace (end of a token).
pub open spec fn token_end(s: Seq<char>, i: int) -> int
    decreases s.len() - i,
{
    if i < 0 || i >= s.len() || is_space_char(s[i]) {
        i
    } else {
        token_end(s, i + 1)
    }
}

/// The second whitespace-separated field of `s`, if the line has one.
pub open spec fn second_field(s: Seq<char>) -> Option<Seq<char>> {
    let a = space_end(s, 0);
    let b = token_end(s, a);
    let c = space_end(s, b);
    let d = token_end(s, c);
    if a == s.len() || c == s.len() {
        None
    } else {
        Some(s.subrange(c, d))
    }
}

/// How one line is counted.
pub open spec fn classify_spec(s: Seq<char>) -> LineClass {
    match second_field(s) {
        None => LineClass::Ignored,
        Some(t) => if t == seq!['*'] {
            LineClass::Point
        } else if t == seq!['l', 'w', 't'] {
            LineClass::Lwt
        } else {
            LineClass::Ignored
        },
    }
}

/// Whether `c` is a whitespace splitter character.
pub fn is_space(c: char) -> (r: bool)
    ensures
        r == is_space_char(c),
{
    let u = c as u32;
    u == 0x09 || u == 0x0A || u == 0x0B || u == 0x0C || u == 0x0D || u == 0x20 || u == 0x85
        || u == 0xA0 || u == 0x1680 || (0x2000 <= u && u <= 0x200A) || u == 0x2028 || u == 0x2029
        || u == 0x202F || u == 0x205F || u == 0x3000
}

/// Index of the first non-whitespace character at or after `start`.
fn skip_spaces(line: &str, start: usize) -> (r: usize)
    requires
        start <= line@.len(),
    ensures
        r == space_end(line@, start as int),
        start <= r <= line@.len(),
{
    let n = line.unicode_len();
    let mut i = start;
    loop
        invariant
            start <= i <= n,
            n == line@.len(),
            space_end(line@, start as int) == space_end(line@, i as int),
        decreases n - i,
    {
        if i == n {
            return i;
        }
        let c = line.get_char(i);
        if !is_space(c) {
            return i;
        }
        i = i + 1;
    }
}

/// Index of the first whitespace character at or after `start`.
fn skip_token(line: &str, start: usize) -> (r: usize)
    requires
        start <= line@.len(),
    ensures
        r == token_end(line@, start as int),
        start <= r <= line@.len(),
{
    let n = line.unicode_len();
    let mut i = start;
    loop
        invariant
            start <= i <= n,
            n == line@.len(),
            token_end(line@, start as int) == token_end(line@, i as int),
        decreases n - i,
    {
        if i == n {
            return i;
        }
        let c = line.get_char(i);
        if is_space(c) {
            return i;
        }
        i = i + 1;
    }
}

/// Classifies one record-file line by its second whitespace-separated field.
pub fn classify_line(line: &str) -> (r: LineClass)
    ensures
        r == classify_spec(line@),
{
    let n = line.unicode_len();
    let a = skip_spaces(line, 0);
    if a == n {
        return LineClass::Ignored;
    }
    let b = skip_token(line, a);
    let c = skip_spaces(line, b);
    if c == n {
        return LineClass::Ignored;
    }
    let d = skip_token(line, c);
    let ghost t = line@.subrange(c as int, d as int);
    if d - c == 1 && line.get_char(c) == '*' {
        proof {
            assert(t =~= seq!['*']);
        }
        LineClass::Point
    } else if d - c == 3 && line.get_char(c) == 'l' && line.get_char(c + 1) == 'w' && line.get_char(
        c + 2,
    ) == 't' {
        proof {
            assert(t =~= seq!['l', 'w', 't']);
        }
        LineClass::Lwt
    } else {
        proof {
            if t == seq!['*'] {
                assert(t.len() == 1 && t[0] == '*');
            }
            if t == seq!['l', 'w', 't'] {
                assert(t.len() == 3 && t[0] == 'l' && t[1] == 'w' && t[2] == 't');
            }
        }
        LineClass::Ignored
    }
}

} // verus!
