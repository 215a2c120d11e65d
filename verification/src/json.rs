//! The textual wire format of requests, responses and launch commands.
//!
//! Messages travel as compact JSON documents built from the value
//! shapes this protocol uses: strings, integers (up to 18 digits),
//! `null`, arrays of strings, and string-valued objects.  The parser
//! works positionally over a character sequence; in strings it accepts
//! the short escapes, `\/`, and `\u00XX` for control characters —
//! exactly what standard JSON emitters produce for this protocol's
//! payloads.  The serializer emits the canonical compact form, and
//! what it emits parses back to the same value.

use vstd::prelude::*;
use vstd::assert_seqs_equal;
use crate::strings::{views_of, pair_views_of, string_from_chars, chars_of, eq_chars};

verus! {

/// JSON insignificant whitespace.
pub open spec fn is_ws(c: char) -> bool {
    c == ' ' || c == '\t' || c == '\n' || c == '\r'
}

/// The first position at or after `pos` holding no whitespace.
pub open spec fn sp_ws(s: Seq<char>, pos: int) -> int
    decreases s.len() - pos,
{
    if 0 <= pos < s.len() && is_ws(s[pos]) {
        sp_ws(s, pos + 1)
    } else {
        pos
    }
}

pub proof fn lemma_ws_bounds(s: Seq<char>, pos: int)
    requires
        0 <= pos <= s.len(),
    ensures
        pos <= sp_ws(s, pos) <= s.len(),
    decreases s.len() - pos,
{
    if pos < s.len() && is_ws(s[pos]) {
        lemma_ws_bounds(s, pos + 1);
    }
}

/// The value of a hexadecimal digit, `-1` for any other character.
pub open spec fn hexval(c: char) -> int {
    if '0' <= c && c <= '9' {
        c as int - '0' as int
    } else if 'a' <= c && c <= 'f' {
        10 + c as int - 'a' as int
    } else if 'A' <= c && c <= 'F' {
        10 + c as int - 'A' as int
    } else {
        -1
    }
}

/// The lower-case hexadecimal digit for `d` in `0 .. 16`.
pub open spec fn hex_digit(d: int) -> char {
    if d == 0 { '0' }
    else if d == 1 { '1' }
    else if d == 2 { '2' }
    else if d == 3 { '3' }
    else if d == 4 { '4' }
    else if d == 5 { '5' }
    else if d == 6 { '6' }
    else if d == 7 { '7' }
    else if d == 8 { '8' }
    else if d == 9 { '9' }
    else if d == 10 { 'a' }
    else if d == 11 { 'b' }
    else if d == 12 { 'c' }
    else if d == 13 { 'd' }
    else if d == 14 { 'e' }
    else { 'f' }
}

/// The control character with code `code` in `0 .. 32`.
pub open spec fn ctrl_char(code: int) -> char {
    if code == 0 { '\u{0}' }
    else if code == 1 { '\u{1}' }
    else if code == 2 { '\u{2}' }
    else if code == 3 { '\u{3}' }
    else if code == 4 { '\u{4}' }
    else if code == 5 { '\u{5}' }
    else if code == 6 { '\u{6}' }
    else if code == 7 { '\u{7}' }
    else if code == 8 { '\u{8}' }
    else if code == 9 { '\u{9}' }
    else if code == 10 { '\u{a}' }
    else if code == 11 { '\u{b}' }
    else if code == 12 { '\u{c}' }
    else if code == 13 { '\u{d}' }
    else if code == 14 { '\u{e}' }
    else if code == 15 { '\u{f}' }
    else if code == 16 { '\u{10}' }
    else if code == 17 { '\u{11}' }
    else if code == 18 { '\u{12}' }
    else if code == 19 { '\u{13}' }
    else if code == 20 { '\u{14}' }
    else if code == 21 { '\u{15}' }
    else if code == 22 { '\u{16}' }
    else if code == 23 { '\u{17}' }
    else if code == 24 { '\u{18}' }
    else if code == 25 { '\u{19}' }
    else if code == 26 { '\u{1a}' }
    else if code == 27 { '\u{1b}' }
    else if code == 28 { '\u{1c}' }
    else if code == 29 { '\u{1d}' }
    else if code == 30 { '\u{1e}' }
    else if code == 31 { '\u{1f}' }
    else { ' ' }
}

/// The canonical escape of one character inside a JSON string: the
/// two-character short escapes where they exist, `\u00XX` for the
/// remaining control characters, the character itself otherwise.
pub open spec fn esc_char(c: char) -> Seq<char> {
    if c == '"' {
        seq!['\\', '"']
    } else if c == '\\' {
        seq!['\\', '\\']
    } else if c == '\n' {
        seq!['\\', 'n']
    } else if c == '\r' {
        seq!['\\', 'r']
    } else if c == '\t' {
        seq!['\\', 't']
    } else if c == '\u{8}' {
        seq!['\\', 'b']
    } else if c == '\u{c}' {
        seq!['\\', 'f']
    } else if (c as u32) < 32 {
        seq!['\\', 'u', '0', '0', hex_digit((c as u32) as int / 16), hex_digit((c as u32) as int % 16)]
    } else {
        seq![c]
    }
}

/// The canonical escape of a whole string body.
pub open spec fn esc_all(s: Seq<char>) -> Seq<char>
    decreases s.len(),
{
    if s.len() == 0 {
        Seq::empty()
    } else {
        esc_char(s[0]) + esc_all(s.drop_first())
    }
}

/// The canonical quoted form of a string.
pub open spec fn quoted(s: Seq<char>) -> Seq<char> {
    seq!['"'] + esc_all(s) + seq!['"']
}

pub proof fn lemma_esc_all_push(s: Seq<char>, c: char)
    ensures
        esc_all(s.push(c)) == esc_all(s) + esc_char(c),
    decreases s.len(),
{
    if s.len() == 0 {
        assert(s.push(c).drop_first() =~= Seq::<char>::empty());
        assert(s.push(c)[0] == c);
        assert(esc_all(Seq::<char>::empty()) == Seq::<char>::empty());
        assert(esc_all(s.push(c)) == esc_char(c) + Seq::<char>::empty());
        assert(esc_char(c) + Seq::<char>::empty() =~= esc_char(c));
        assert(esc_all(s) == Seq::<char>::empty());
        assert(esc_all(s) + esc_char(c) =~= esc_char(c));
    } else {
        assert(s.push(c).drop_first() =~= s.drop_first().push(c));
        assert(s.push(c)[0] == s[0]);
        lemma_esc_all_push(s.drop_first(), c);
        assert(esc_char(s[0]) + (esc_all(s.drop_first()) + esc_char(c)) =~= (esc_char(s[0])
            + esc_all(s.drop_first())) + esc_char(c));
    }
}

/// Parses the body of a JSON string, after the opening quote, having
/// already accumulated `acc`.  Returns the string's characters and the
/// position just past the closing quote.
pub open spec fn sp_str_body(s: Seq<char>, pos: int, acc: Seq<char>) -> Option<(Seq<char>, int)>
    decreases s.len() - pos,
{
    if pos < 0 || pos >= s.len() {
        None
    } else if s[pos] == '"' {
        Some((acc, pos + 1))
    } else if s[pos] == '\\' {
        if pos + 1 >= s.len() {
            None
        } else {
            let e = s[pos + 1];
            if e == '"' {
                sp_str_body(s, pos + 2, acc.push('"'))
            } else if e == '\\' {
                sp_str_body(s, pos + 2, acc.push('\\'))
            } else if e == '/' {
                sp_str_body(s, pos + 2, acc.push('/'))
            } else if e == 'n' {
                sp_str_body(s, pos + 2, acc.push('\n'))
            } else if e == 'r' {
                sp_str_body(s, pos + 2, acc.push('\r'))
            } else if e == 't' {
                sp_str_body(s, pos + 2, acc.push('\t'))
            } else if e == 'b' {
                sp_str_body(s, pos + 2, acc.push('\u{8}'))
            } else if e == 'f' {
                sp_str_body(s, pos + 2, acc.push('\u{c}'))
            } else if e == 'u' && pos + 5 < s.len() && s[pos + 2] == '0' && s[pos + 3] == '0'
                && hexval(s[pos + 4]) >= 0 && hexval(s[pos + 5]) >= 0 && 16 * hexval(s[pos + 4])
                + hexval(s[pos + 5]) < 32 {
                sp_str_body(s, pos + 6, acc.push(ctrl_char(16 * hexval(s[pos + 4]) + hexval(s[pos + 5]))))
            } else {
                None
            }
        }
    } else if (s[pos] as u32) >= 32 {
        sp_str_body(s, pos + 1, acc.push(s[pos]))
    } else {
        None
    }
}

/// Parses a quoted JSON string starting exactly at `pos`.
pub open spec fn sp_string(s: Seq<char>, pos: int) -> Option<(Seq<char>, int)> {
    if 0 <= pos < s.len() && s[pos] == '"' {
        sp_str_body(s, pos + 1, Seq::empty())
    } else {
        None
    }
}

pub proof fn lemma_str_body_advances(s: Seq<char>, pos: int, acc: Seq<char>)
    requires
        sp_str_body(s, pos, acc) is Some,
    ensures
        pos < (sp_str_body(s, pos, acc)->0).1 <= s.len(),
    decreases s.len() - pos,
{
    if 0 <= pos < s.len() && s[pos] != '"' {
        if s[pos] == '\\' {
            let e = s[pos + 1];
            if e == 'u' && pos + 5 < s.len() && s[pos + 2] == '0' && s[pos + 3] == '0' && hexval(
                s[pos + 4],
            ) >= 0 && hexval(s[pos + 5]) >= 0 && 16 * hexval(s[pos + 4]) + hexval(s[pos + 5])
                < 32 {
                lemma_str_body_advances(
                    s,
                    pos + 6,
                    acc.push(ctrl_char(16 * hexval(s[pos + 4]) + hexval(s[pos + 5]))),
                );
            } else if e == '"' {
                lemma_str_body_advances(s, pos + 2, acc.push('"'));
            } else if e == '\\' {
                lemma_str_body_advances(s, pos + 2, acc.push('\\'));
            } else if e == '/' {
                lemma_str_body_advances(s, pos + 2, acc.push('/'));
            } else if e == 'n' {
                lemma_str_body_advances(s, pos + 2, acc.push('\n'));
            } else if e == 'r' {
                lemma_str_body_advances(s, pos + 2, acc.push('\r'));
            } else if e == 't' {
                lemma_str_body_advances(s, pos + 2, acc.push('\t'));
            } else if e == 'b' {
                lemma_str_body_advances(s, pos + 2, acc.push('\u{8}'));
            } else if e == 'f' {
                lemma_str_body_advances(s, pos + 2, acc.push('\u{c}'));
            }
        } else {
            lemma_str_body_advances(s, pos + 1, acc.push(s[pos]));
        }
    }
}

pub proof fn lemma_string_advances(s: Seq<char>, pos: int)
    requires
        sp_string(s, pos) is Some,
    ensures
        pos < (sp_string(s, pos)->0).1 <= s.len(),
{
    lemma_str_body_advances(s, pos + 1, Seq::empty());
}

/// Executable form of [`hexval`].
pub fn hexval_char(c: char) -> (v: i32)
    ensures
        v as int == hexval(c),
{
    if c >= '0' && c <= '9' {
        (c as u32 as i32) - 48
    } else if c >= 'a' && c <= 'f' {
        10 + (c as u32 as i32) - 97
    } else if c >= 'A' && c <= 'F' {
        10 + (c as u32 as i32) - 65
    } else {
        -1
    }
}

/// Executable form of [`hex_digit`].
pub fn hex_digit_char(d: u32) -> (c: char)
    requires
        0 <= d < 16,
    ensures
        c == hex_digit(d as int),
{
    match d {
        0 => '0',
        1 => '1',
        2 => '2',
        3 => '3',
        4 => '4',
        5 => '5',
        6 => '6',
        7 => '7',
        8 => '8',
        9 => '9',
        10 => 'a',
        11 => 'b',
        12 => 'c',
        13 => 'd',
        14 => 'e',
        _ => 'f',
    }
}

/// Executable form of [`ctrl_char`].
pub fn ctrl_char_of(code: i32) -> (c: char)
    requires
        0 <= code < 32,
    ensures
        c == ctrl_char(code as int),
{
    match code {
        0 => '\u{0}',
        1 => '\u{1}',
        2 => '\u{2}',
        3 => '\u{3}',
        4 => '\u{4}',
        5 => '\u{5}',
        6 => '\u{6}',
        7 => '\u{7}',
        8 => '\u{8}',
        9 => '\u{9}',
        10 => '\u{a}',
        11 => '\u{b}',
        12 => '\u{c}',
        13 => '\u{d}',
        14 => '\u{e}',
        15 => '\u{f}',
        16 => '\u{10}',
        17 => '\u{11}',
        18 => '\u{12}',
        19 => '\u{13}',
        20 => '\u{14}',
        21 => '\u{15}',
        22 => '\u{16}',
        23 => '\u{17}',
        24 => '\u{18}',
        25 => '\u{19}',
        26 => '\u{1a}',
        27 => '\u{1b}',
        28 => '\u{1c}',
        29 => '\u{1d}',
        30 => '\u{1e}',
        _ => '\u{1f}',
    }
}

/// Skips whitespace starting at `pos`.
pub fn skip_ws(s: &Vec<char>, pos: usize) -> (r: usize)
    requires
        pos <= s@.len(),
    ensures
        r as int == sp_ws(s@, pos as int),
        pos <= r <= s@.len(),
{
    let mut i: usize = pos;
    while i < s.len() && is_ws_char(s[i])
        invariant
            pos <= i <= s@.len(),
            sp_ws(s@, pos as int) == sp_ws(s@, i as int),
        decreases s@.len() - i,
    {
        i = i + 1;
    }
    proof {
        lemma_ws_bounds(s@, pos as int);
    }
    i
}

/// Executable form of [`is_ws`].
pub fn is_ws_char(c: char) -> (r: bool)
    ensures
        r == is_ws(c),
{
    c == ' ' || c == '\t' || c == '\n' || c == '\r'
}

/// Parses a quoted JSON string at `pos`, returning its characters and
/// the position just past the closing quote.  Returns `None` exactly
/// when the specification parser does.
pub fn parse_string(s: &Vec<char>, pos: usize) -> (r: Option<(Vec<char>, usize)>)
    ensures
        r is None ==> sp_string(s@, pos as int) is None,
        r is Some ==> sp_string(s@, pos as int) == Some(((r->0).0@, (r->0).1 as int)),
{
    if pos >= s.len() || s[pos] != '"' {
        return None;
    }
    let mut i: usize = pos + 1;
    let mut acc: Vec<char> = Vec::new();
    proof {
        assert(acc@ =~= Seq::<char>::empty());
    }
    loop
        invariant
            pos + 1 <= i <= s@.len(),
            sp_str_body(s@, pos as int + 1, Seq::empty()) == sp_str_body(s@, i as int, acc@),
            sp_string(s@, pos as int) == sp_str_body(s@, pos as int + 1, Seq::empty()),
        decreases s@.len() - i,
    {
        if i >= s.len() {
            return None;
        }
        let c = s[i];
        if c == '"' {
            return Some((acc, i + 1));
        }
        if c == '\\' {
            if s.len() - i < 2 {
                return None;
            }
            let e = s[i + 1];
            if e == '"' {
                acc.push('"');
                i = i + 2;
            } else if e == '\\' {
                acc.push('\\');
                i = i + 2;
            } else if e == '/' {
                acc.push('/');
                i = i + 2;
            } else if e == 'n' {
                acc.push('\n');
                i = i + 2;
            } else if e == 'r' {
                acc.push('\r');
                i = i + 2;
            } else if e == 't' {
                acc.push('\t');
                i = i + 2;
            } else if e == 'b' {
                acc.push('\u{8}');
                i = i + 2;
            } else if e == 'f' {
                acc.push('\u{c}');
                i = i + 2;
            } else if e == 'u' {
                if s.len() - i < 6 {
                    return None;
                }
                if s[i + 2] != '0' || s[i + 3] != '0' {
                    return None;
                }
                let v1 = hexval_char(s[i + 4]);
                let v2 = hexval_char(s[i + 5]);
                if v1 < 0 || v2 < 0 {
                    return None;
                }
                let code = 16 * v1 + v2;
                if code >= 32 {
                    return None;
                }
                acc.push(ctrl_char_of(code));
                i = i + 6;
            } else {
                return None;
            }
        } else if (c as u32) >= 32 {
            acc.push(c);
            i = i + 1;
        } else {
            return None;
        }
    }
}

/// Appends the canonical quoted form of `s` to `out`.
pub fn write_quoted(out: &mut Vec<char>, s: &Vec<char>)
    ensures
        final(out)@ == old(out)@ + quoted(s@),
{
    out.push('"');
    let mut j: usize = 0;
    proof {
        assert(esc_all(s@.subrange(0, 0)) =~= Seq::<char>::empty());
        assert(out@ =~= old(out)@ + seq!['"'] + esc_all(s@.subrange(0, 0)));
    }
    while j < s.len()
        invariant
            j <= s@.len(),
            out@ == old(out)@ + seq!['"'] + esc_all(s@.subrange(0, j as int)),
        decreases s@.len() - j,
    {
        let ghost pre = s@.subrange(0, j as int);
        proof {
            assert(s@.subrange(0, j as int + 1) =~= pre.push(s@[j as int]));
            lemma_esc_all_push(pre, s@[j as int]);
        }
        let c = s[j];
        if c == '"' {
            out.push('\\');
            out.push('"');
        } else if c == '\\' {
            out.push('\\');
            out.push('\\');
        } else if c == '\n' {
            out.push('\\');
            out.push('n');
        } else if c == '\r' {
            out.push('\\');
            out.push('r');
        } else if c == '\t' {
            out.push('\\');
            out.push('t');
        } else if c == '\u{8}' {
            out.push('\\');
            out.push('b');
        } else if c == '\u{c}' {
            out.push('\\');
            out.push('f');
        } else if (c as u32) < 32 {
            out.push('\\');
            out.push('u');
            out.push('0');
            out.push('0');
            out.push(hex_digit_char((c as u32) / 16));
            out.push(hex_digit_char((c as u32) % 16));
        } else {
            out.push(c);
        }
        proof {
            assert(out@ =~= old(out)@ + seq!['"'] + (esc_all(pre) + esc_char(s@[j as int])));
        }
        j = j + 1;
    }
    out.push('"');
    proof {
        assert(s@.subrange(0, s@.len() as int) =~= s@);
        assert(out@ =~= old(out)@ + quoted(s@));
    }
}

pub proof fn lemma_hex_digit_val(d: int)
    requires
        0 <= d < 16,
    ensures
        hexval(hex_digit(d)) == d,
{
}

pub proof fn lemma_ctrl_char_id(c: char)
    requires
        (c as u32) < 32,
    ensures
        ctrl_char((c as u32) as int) == c,
{
}

/// The escaped body of `s` followed by the closing quote parses back to
/// exactly `s`.
pub proof fn lemma_str_body_round_trip(full: Seq<char>, pos: int, s: Seq<char>, acc: Seq<char>)
    requires
        0 <= pos,
        pos + esc_all(s).len() + 1 <= full.len(),
        full.subrange(pos, pos + esc_all(s).len() + 1) == esc_all(s) + seq!['"'],
    ensures
        sp_str_body(full, pos, acc) == Some((acc + s, pos + esc_all(s).len() + 1)),
    decreases s.len(),
{
    let es = esc_all(s);
    let g = es + seq!['"'];
    assert(forall|k: int|
        0 <= k < g.len() ==> full[pos + k] == #[trigger] g[k]) by {
        assert(forall|k: int|
            0 <= k < g.len() ==> full.subrange(pos, pos + es.len() + 1)[k] == #[trigger] g[k]);
    }
    if s.len() == 0 {
        assert(es =~= Seq::<char>::empty());
        assert(g[0] == '"');
        assert(full[pos + 0] == g[0]);
        assert(full[pos] == '"');
        assert(acc + s =~= acc);
    } else {
        let c = s[0];
        let rest = s.drop_first();
        let e = esc_char(c);
        let er = esc_all(rest);
        assert(es == e + er);
        // The characters of `e` stand at `pos ..`.
        assert(forall|k: int| 0 <= k < e.len() ==> full[pos + k] == #[trigger] e[k]) by {
            assert(forall|k: int| 0 <= k < e.len() ==> g[k] == #[trigger] e[k]);
        }
        // After consuming `e`, the remaining text is the escape of
        // `rest` followed by the closing quote.
        let pos2 = pos + e.len();
        assert(full.subrange(pos2, pos2 + er.len() + 1) =~= er + seq!['"']) by {
            assert(forall|k: int|
                0 <= k < er.len() + 1 ==> full[pos2 + k] == #[trigger] (er + seq!['"'])[k]) by {
                assert(forall|k: int|
                    0 <= k < er.len() + 1 ==> g[e.len() + k] == #[trigger] (er + seq!['"'])[k]);
            }
        }
        lemma_str_body_round_trip(full, pos2, rest, acc.push(c));
        assert(acc.push(c) + rest =~= acc + s);
        // The head escape is consumed by exactly one parsing step.
        if c == '"' || c == '\\' || c == '\n' || c == '\r' || c == '\t' || c == '\u{8}' || c
            == '\u{c}' {
            assert(e[0] == '\\');
            assert(full[pos + 0] == e[0]);
            assert(full[pos + 1] == e[1]);
            assert(full[pos] == '\\');
            assert(sp_str_body(full, pos, acc) == sp_str_body(full, pos + 2, acc.push(c)));
        } else if (c as u32) < 32 {
            let code = (c as u32) as int;
            assert(e[0] == '\\' && e[1] == 'u' && e[2] == '0' && e[3] == '0');
            assert(e[4] == hex_digit(code / 16) && e[5] == hex_digit(code % 16));
            assert(full[pos + 0] == e[0]);
            assert(full[pos + 1] == e[1]);
            assert(full[pos + 2] == e[2]);
            assert(full[pos + 3] == e[3]);
            assert(full[pos + 4] == e[4]);
            assert(full[pos + 5] == e[5]);
            lemma_hex_digit_val(code / 16);
            lemma_hex_digit_val(code % 16);
            assert(16 * (code / 16) + code % 16 == code);
            lemma_ctrl_char_id(c);
            assert(sp_str_body(full, pos, acc) == sp_str_body(full, pos + 6, acc.push(c)));
        } else {
            assert(e[0] == c);
            assert(full[pos + 0] == e[0]);
            assert(full[pos] == c);
            assert(sp_str_body(full, pos, acc) == sp_str_body(full, pos + 1, acc.push(c)));
        }
    }
}

/// Law: the canonical quoted form of any string parses back to exactly
/// that string, consuming exactly the quoted form.
pub proof fn lemma_string_round_trip(full: Seq<char>, pos: int, s: Seq<char>)
    requires
        0 <= pos,
        pos + quoted(s).len() <= full.len(),
        full.subrange(pos, pos + quoted(s).len()) == quoted(s),
    ensures
        sp_string(full, pos) == Some((s, pos + quoted(s).len())),
{
    assert(full[pos] == quoted(s)[0]) by {
        assert(full.subrange(pos, pos + quoted(s).len())[0] == quoted(s)[0]);
    }
    assert(quoted(s)[0] == '"');
    assert(full[pos] == '"');
    assert(full.subrange(pos + 1, pos + 1 + esc_all(s).len() + 1) =~= esc_all(s) + seq!['"']) by {
        assert(forall|k: int|
            0 <= k < esc_all(s).len() + 1 ==> full.subrange(pos, pos + quoted(s).len())[1 + k]
                == #[trigger] (esc_all(s) + seq!['"'])[k]);
        assert(forall|k: int|
            0 <= k < esc_all(s).len() + 1 ==> quoted(s)[1 + k] == #[trigger] (esc_all(s)
                + seq!['"'])[k]);
    }
    lemma_str_body_round_trip(full, pos + 1, s, Seq::empty());
    assert(Seq::empty() + s =~= s);
}

/// A decimal digit.
pub open spec fn is_digit(c: char) -> bool {
    '0' <= c && c <= '9'
}

/// Parses a run of 1 to 18 decimal digits, having already accumulated
/// the value `acc` over `count` digits.
pub open spec fn sp_digits(s: Seq<char>, pos: int, acc: int, count: int) -> Option<(int, int)>
    decreases s.len() - pos,
{
    if 0 <= pos < s.len() && is_digit(s[pos]) {
        if count >= 18 {
            None
        } else {
            sp_digits(s, pos + 1, acc * 10 + (s[pos] as int - '0' as int), count + 1)
        }
    } else if count == 0 {
        None
    } else {
        Some((acc, pos))
    }
}

/// Parses an optionally negated integer of up to 18 digits.
pub open spec fn sp_int(s: Seq<char>, pos: int) -> Option<(int, int)> {
    if 0 <= pos < s.len() && s[pos] == '-' {
        match sp_digits(s, pos + 1, 0, 0) {
            Some((v, np)) => Some((-v, np)),
            None => None,
        }
    } else {
        sp_digits(s, pos, 0, 0)
    }
}

pub proof fn lemma_digits_bounds(s: Seq<char>, pos: int, acc: int, count: int)
    requires
        pos <= s.len(),
        sp_digits(s, pos, acc, count) is Some,
    ensures
        pos <= (sp_digits(s, pos, acc, count)->0).1 <= s.len(),
        count == 0 ==> pos < (sp_digits(s, pos, acc, count)->0).1,
    decreases s.len() - pos,
{
    if 0 <= pos < s.len() && is_digit(s[pos]) && count < 18 {
        lemma_digits_bounds(s, pos + 1, acc * 10 + (s[pos] as int - '0' as int), count + 1);
    }
}

pub proof fn lemma_int_advances(s: Seq<char>, pos: int)
    requires
        sp_int(s, pos) is Some,
    ensures
        pos < (sp_int(s, pos)->0).1 <= s.len(),
{
    if 0 <= pos < s.len() && s[pos] == '-' {
        lemma_digits_bounds(s, pos + 1, 0, 0);
    } else {
        lemma_digits_bounds(s, pos, 0, 0);
    }
}

/// Ten to the power `n`.
pub open spec fn pow10(n: nat) -> nat
    decreases n,
{
    if n == 0 {
        1
    } else {
        10 * pow10((n - 1) as nat)
    }
}

pub proof fn lemma_pow10_mono(a: nat, b: nat)
    requires
        a <= b,
    ensures
        pow10(a) <= pow10(b),
    decreases b,
{
    if a < b {
        lemma_pow10_mono(a, (b - 1) as nat);
        assert(pow10(b) == 10 * pow10((b - 1) as nat));
        assert(pow10(a) >= 1) by {
            lemma_pow10_pos(a);
        }
    }
}

pub proof fn lemma_pow10_pos(n: nat)
    ensures
        pow10(n) >= 1,
    decreases n,
{
    if n > 0 {
        lemma_pow10_pos((n - 1) as nat);
    }
}

/// Parses an integer at `pos`, returning its value and the position
/// after its digits.  Returns `None` exactly when the specification
/// parser does; the value always fits well inside an `i64`.
pub fn parse_int(s: &Vec<char>, pos: usize) -> (r: Option<(i64, usize)>)
    ensures
        r is None ==> sp_int(s@, pos as int) is None,
        r is Some ==> sp_int(s@, pos as int) == Some((((r->0).0) as int, ((r->0).1) as int)),
{
    let neg: bool = pos < s.len() && s[pos] == '-';
    let start: usize = if neg {
        pos + 1
    } else {
        pos
    };
    let mut i: usize = start;
    let mut acc: i64 = 0;
    let mut count: u32 = 0;
    proof {
        assert(pow10(0nat) == 1);
        lemma_pow10_mono(0nat, 18nat);
    }
    loop
        invariant
            start <= i <= s@.len() || (i == start && start >= s@.len()),
            start as int == if neg {
                pos as int + 1
            } else {
                pos as int
            },
            neg ==> pos < s@.len() && s@[pos as int] == '-',
            !neg ==> !(pos < s@.len() && s@[pos as int] == '-'),
            0 <= count <= 18,
            0 <= acc < pow10(count as nat),
            pow10(count as nat) <= pow10(18nat),
            sp_digits(s@, start as int, 0, 0) == sp_digits(s@, i as int, acc as int, count as int),
        decreases s@.len() - i,
    {
        if i < s.len() && s[i] >= '0' && s[i] <= '9' {
            if count >= 18 {
                return None;
            }
            let d: i64 = (s[i] as u32 as i64) - 48;
            proof {
                lemma_pow10_mono((count + 1) as nat, 18nat);
                assert(pow10((count + 1) as nat) == 10 * pow10(count as nat));
                reveal_with_fuel(pow10, 20);
                assert(pow10(18nat) == 1000000000000000000);
            }
            acc = acc * 10 + d;
            count = count + 1;
            i = i + 1;
        } else if count == 0 {
            return None;
        } else {
            let v: i64 = if neg {
                -acc
            } else {
                acc
            };
            proof {
                if neg {
                    assert(sp_int(s@, pos as int) == Some((-(acc as int), i as int)));
                } else {
                    assert(sp_int(s@, pos as int) == Some((acc as int, i as int)));
                }
            }
            return Some((v, i));
        }
    }
}

/// Whether `k` is a key of the association list `m`.
pub open spec fn map_has_key(m: Seq<(Seq<char>, Seq<char>)>, k: Seq<char>) -> bool {
    exists|i: int| 0 <= i < m.len() && (#[trigger] m[i]).0 == k
}

/// Whether the keys of an association list are pairwise distinct.
pub open spec fn unique_keys(m: Seq<(Seq<char>, Seq<char>)>) -> bool {
    forall|i: int, j: int| 0 <= i < j < m.len() ==> (#[trigger] m[i]).0 != (#[trigger] m[j]).0
}

/// Parses the items of a string array after the opening bracket,
/// having already accumulated `acc`: whitespace-separated quoted
/// strings, separated by commas and closed by `]`.
pub open spec fn sp_str_arr_items(s: Seq<char>, pos: int, acc: Seq<Seq<char>>) -> Option<
    (Seq<Seq<char>>, int),
>
    decreases s.len() - pos,
    via sp_str_arr_items_decreases
{
    let p = sp_ws(s, pos);
    match sp_string(s, p) {
        None => None,
        Some((v, np)) => {
            let q = sp_ws(s, np);
            if 0 <= q < s.len() && s[q] == ',' {
                sp_str_arr_items(s, q + 1, acc.push(v))
            } else if 0 <= q < s.len() && s[q] == ']' {
                Some((acc.push(v), q + 1))
            } else {
                None
            }
        },
    }
}

#[via_fn]
proof fn sp_str_arr_items_decreases(s: Seq<char>, pos: int, acc: Seq<Seq<char>>) {
    if 0 <= pos <= s.len() {
        lemma_ws_bounds(s, pos);
    }
    let p = sp_ws(s, pos);
    if sp_string(s, p) is Some {
        lemma_string_advances(s, p);
        let np = (sp_string(s, p)->0).1;
        lemma_ws_bounds(s, np);
    }
}

/// Parses a JSON array of strings starting exactly at `pos`.
pub open spec fn sp_str_arr(s: Seq<char>, pos: int) -> Option<(Seq<Seq<char>>, int)> {
    if 0 <= pos < s.len() && s[pos] == '[' {
        let p = sp_ws(s, pos + 1);
        if 0 <= p < s.len() && s[p] == ']' {
            Some((Seq::empty(), p + 1))
        } else {
            sp_str_arr_items(s, pos + 1, Seq::empty())
        }
    } else {
        None
    }
}

pub proof fn lemma_arr_items_advances(s: Seq<char>, pos: int, acc: Seq<Seq<char>>)
    requires
        sp_str_arr_items(s, pos, acc) is Some,
    ensures
        pos < (sp_str_arr_items(s, pos, acc)->0).1 <= s.len(),
    decreases s.len() - pos,
{
    if 0 <= pos <= s.len() {
        lemma_ws_bounds(s, pos);
    }
    let p = sp_ws(s, pos);
    lemma_string_advances(s, p);
    let np = (sp_string(s, p)->0).1;
    lemma_ws_bounds(s, np);
    let q = sp_ws(s, np);
    if 0 <= q < s.len() && s[q] == ',' {
        let v = (sp_string(s, p)->0).0;
        lemma_arr_items_advances(s, q + 1, acc.push(v));
    }
}

pub proof fn lemma_arr_advances(s: Seq<char>, pos: int)
    requires
        sp_str_arr(s, pos) is Some,
    ensures
        pos < (sp_str_arr(s, pos)->0).1 <= s.len(),
{
    let p = sp_ws(s, pos + 1);
    lemma_ws_bounds(s, pos + 1);
    if !(0 <= p < s.len() && s[p] == ']') {
        lemma_arr_items_advances(s, pos + 1, Seq::empty());
    }
}

/// Parses the members of a string-valued object after the opening
/// brace, having already accumulated `acc`: `"key":"value"` members
/// separated by commas and closed by `}`.  A repeated key is rejected.
pub open spec fn sp_str_map_items(
    s: Seq<char>,
    pos: int,
    acc: Seq<(Seq<char>, Seq<char>)>,
) -> Option<(Seq<(Seq<char>, Seq<char>)>, int)>
    decreases s.len() - pos,
    via sp_str_map_items_decreases
{
    let p = sp_ws(s, pos);
    match sp_string(s, p) {
        None => None,
        Some((k, np)) => {
            if map_has_key(acc, k) {
                None
            } else {
                let q = sp_ws(s, np);
                if 0 <= q < s.len() && s[q] == ':' {
                    let t = sp_ws(s, q + 1);
                    match sp_string(s, t) {
                        None => None,
                        Some((v, np2)) => {
                            let u = sp_ws(s, np2);
                            if 0 <= u < s.len() && s[u] == ',' {
                                sp_str_map_items(s, u + 1, acc.push((k, v)))
                            } else if 0 <= u < s.len() && s[u] == '}' {
                                Some((acc.push((k, v)), u + 1))
                            } else {
                                None
                            }
                        },
                    }
                } else {
                    None
                }
            }
        },
    }
}

#[via_fn]
proof fn sp_str_map_items_decreases(s: Seq<char>, pos: int, acc: Seq<(Seq<char>, Seq<char>)>) {
    if 0 <= pos <= s.len() {
        lemma_ws_bounds(s, pos);
    }
    let p = sp_ws(s, pos);
    if sp_string(s, p) is Some {
        lemma_string_advances(s, p);
        let np = (sp_string(s, p)->0).1;
        lemma_ws_bounds(s, np);
        let q = sp_ws(s, np);
        if 0 <= q < s.len() && s[q] == ':' {
            lemma_ws_bounds(s, q + 1);
            let t = sp_ws(s, q + 1);
            if sp_string(s, t) is Some {
                lemma_string_advances(s, t);
                let np2 = (sp_string(s, t)->0).1;
                lemma_ws_bounds(s, np2);
            }
        }
    }
}

/// Parses a JSON object whose values are all strings, starting exactly
/// at `pos`.
pub open spec fn sp_str_map(s: Seq<char>, pos: int) -> Option<(Seq<(Seq<char>, Seq<char>)>, int)> {
    if 0 <= pos < s.len() && s[pos] == '{' {
        let p = sp_ws(s, pos + 1);
        if 0 <= p < s.len() && s[p] == '}' {
            Some((Seq::empty(), p + 1))
        } else {
            sp_str_map_items(s, pos + 1, Seq::empty())
        }
    } else {
        None
    }
}

pub proof fn lemma_map_items_advances(s: Seq<char>, pos: int, acc: Seq<(Seq<char>, Seq<char>)>)
    requires
        sp_str_map_items(s, pos, acc) is Some,
    ensures
        pos < (sp_str_map_items(s, pos, acc)->0).1 <= s.len(),
    decreases s.len() - pos,
{
    if 0 <= pos <= s.len() {
        lemma_ws_bounds(s, pos);
    }
    let p = sp_ws(s, pos);
    lemma_string_advances(s, p);
    let k = (sp_string(s, p)->0).0;
    let np = (sp_string(s, p)->0).1;
    lemma_ws_bounds(s, np);
    let q = sp_ws(s, np);
    lemma_ws_bounds(s, q + 1);
    let t = sp_ws(s, q + 1);
    lemma_string_advances(s, t);
    let v = (sp_string(s, t)->0).0;
    let np2 = (sp_string(s, t)->0).1;
    lemma_ws_bounds(s, np2);
    let u = sp_ws(s, np2);
    if 0 <= u < s.len() && s[u] == ',' {
        lemma_map_items_advances(s, u + 1, acc.push((k, v)));
    }
}

proof fn lemma_map_items_unique(s: Seq<char>, pos: int, acc: Seq<(Seq<char>, Seq<char>)>)
    requires
        sp_str_map_items(s, pos, acc) is Some,
        unique_keys(acc),
    ensures
        unique_keys((sp_str_map_items(s, pos, acc)->0).0),
    decreases s.len() - pos,
{
    if 0 <= pos <= s.len() {
        lemma_ws_bounds(s, pos);
    }
    let p = sp_ws(s, pos);
    lemma_string_advances(s, p);
    let k = (sp_string(s, p)->0).0;
    let np = (sp_string(s, p)->0).1;
    lemma_ws_bounds(s, np);
    let q = sp_ws(s, np);
    lemma_ws_bounds(s, q + 1);
    let t = sp_ws(s, q + 1);
    lemma_string_advances(s, t);
    let v = (sp_string(s, t)->0).0;
    let np2 = (sp_string(s, t)->0).1;
    lemma_ws_bounds(s, np2);
    let u = sp_ws(s, np2);
    let pushed = acc.push((k, v));
    assert(unique_keys(pushed)) by {
        assert(forall|i: int|
            0 <= i < acc.len() ==> (#[trigger] pushed[i]).0 == acc[i].0);
        assert(pushed[acc.len() as int].0 == k);
    }
    if 0 <= u < s.len() && s[u] == ',' {
        lemma_map_items_unique(s, u + 1, pushed);
    }
}

/// Law: whatever a string-valued object parses to has pairwise
/// distinct keys — a repeated key is rejected.
pub proof fn lemma_map_unique(s: Seq<char>, pos: int)
    requires
        sp_str_map(s, pos) is Some,
    ensures
        unique_keys((sp_str_map(s, pos)->0).0),
{
    let p = sp_ws(s, pos + 1);
    if 0 <= p < s.len() && s[p] == '}' {
    } else {
        lemma_map_items_unique(s, pos + 1, Seq::empty());
    }
}

pub proof fn lemma_map_advances(s: Seq<char>, pos: int)
    requires
        sp_str_map(s, pos) is Some,
    ensures
        pos < (sp_str_map(s, pos)->0).1 <= s.len(),
{
    let p = sp_ws(s, pos + 1);
    lemma_ws_bounds(s, pos + 1);
    if !(0 <= p < s.len() && s[p] == '}') {
        lemma_map_items_advances(s, pos + 1, Seq::empty());
    }
}

/// The canonical text of a string array's remaining items, including
/// the closing bracket: `,"e1","e2"]` — or just `]` when none remain.
pub open spec fn ser_arr_tail(elems: Seq<Seq<char>>) -> Seq<char>
    decreases elems.len(),
{
    if elems.len() == 0 {
        seq![']']
    } else {
        seq![','] + quoted(elems[0]) + ser_arr_tail(elems.drop_first())
    }
}

/// The canonical compact text of a string array.
pub open spec fn ser_str_arr(elems: Seq<Seq<char>>) -> Seq<char> {
    if elems.len() == 0 {
        seq!['[', ']']
    } else {
        seq!['['] + quoted(elems[0]) + ser_arr_tail(elems.drop_first())
    }
}

/// The canonical text of one object member: `"key":"value"`.
pub open spec fn ser_member(p: (Seq<char>, Seq<char>)) -> Seq<char> {
    quoted(p.0) + seq![':'] + quoted(p.1)
}

/// The canonical text of an object's remaining members, including the
/// closing brace.
pub open spec fn ser_map_tail(pairs: Seq<(Seq<char>, Seq<char>)>) -> Seq<char>
    decreases pairs.len(),
{
    if pairs.len() == 0 {
        seq!['}']
    } else {
        seq![','] + ser_member(pairs[0]) + ser_map_tail(pairs.drop_first())
    }
}

/// The canonical compact text of a string-valued object.
pub open spec fn ser_str_map(pairs: Seq<(Seq<char>, Seq<char>)>) -> Seq<char> {
    if pairs.len() == 0 {
        seq!['{', '}']
    } else {
        seq!['{'] + ser_member(pairs[0]) + ser_map_tail(pairs.drop_first())
    }
}

/// Law: the canonical items text `"e0"…]` parses back to exactly the
/// serialized elements, appended to what was already accumulated.
pub proof fn lemma_arr_items_round_trip(
    full: Seq<char>,
    pos: int,
    elems: Seq<Seq<char>>,
    acc: Seq<Seq<char>>,
)
    requires
        0 <= pos,
        elems.len() >= 1,
        pos + quoted(elems[0]).len() + ser_arr_tail(elems.drop_first()).len() <= full.len(),
        full.subrange(pos, pos + quoted(elems[0]).len() + ser_arr_tail(elems.drop_first()).len())
            == quoted(elems[0]) + ser_arr_tail(elems.drop_first()),
    ensures
        sp_str_arr_items(full, pos, acc) == Some(
            (
                acc + elems,
                pos + quoted(elems[0]).len() + ser_arr_tail(elems.drop_first()).len(),
            ),
        ),
    decreases elems.len(),
{
    let e0 = elems[0];
    let rest = elems.drop_first();
    let q0 = quoted(e0);
    let tl = ser_arr_tail(rest);
    let g = q0 + tl;
    assert(forall|k: int| 0 <= k < g.len() ==> full[pos + k] == #[trigger] g[k]) by {
        assert(forall|k: int|
            0 <= k < g.len() ==> full.subrange(pos, pos + g.len())[k] == #[trigger] g[k]);
    }
    // No whitespace before the element.
    assert(g[0] == '"');
    assert(full[pos + 0] == g[0]);
    assert(sp_ws(full, pos) == pos);
    // The element itself.
    assert(full.subrange(pos, pos + q0.len()) =~= q0) by {
        assert(forall|k: int| 0 <= k < q0.len() ==> g[k] == #[trigger] q0[k]);
    }
    lemma_string_round_trip(full, pos, e0);
    let np = pos + q0.len();
    assert(full[np] == tl[0]) by {
        assert(full[pos + q0.len()] == g[q0.len() as int]);
    }
    if rest.len() == 0 {
        assert(tl[0] == ']');
        assert(sp_ws(full, np) == np);
        assert(sp_str_arr_items(full, pos, acc) == Some((acc.push(e0), np + 1)));
        assert(acc.push(e0) =~= acc + elems);
    } else {
        assert(tl == seq![','] + quoted(rest[0]) + ser_arr_tail(rest.drop_first()));
        assert(tl[0] == ',');
        assert(sp_ws(full, np) == np);
        let g2 = quoted(rest[0]) + ser_arr_tail(rest.drop_first());
        assert(tl.len() == 1 + g2.len());
        assert_seqs_equal!(full.subrange(np + 1, np + 1 + g2.len()) == g2, k => {
            assert(full.subrange(np + 1, np + 1 + g2.len())[k] == full[np + 1 + k]);
            assert(full[np + 1 + k] == g[q0.len() as int + 1 + k]);
            assert(g[q0.len() as int + 1 + k] == tl[1 + k]);
            assert(tl[1 + k] == g2[k]);
        });
        lemma_arr_items_round_trip(full, np + 1, rest, acc.push(e0));
        assert(acc.push(e0) + rest =~= acc + elems);
    }
}

/// Law: the canonical compact text of any string array parses back to
/// exactly its elements, consuming exactly that text.
pub proof fn lemma_arr_round_trip(full: Seq<char>, pos: int, elems: Seq<Seq<char>>)
    requires
        0 <= pos,
        pos + ser_str_arr(elems).len() <= full.len(),
        full.subrange(pos, pos + ser_str_arr(elems).len()) == ser_str_arr(elems),
    ensures
        sp_str_arr(full, pos) == Some((elems, pos + ser_str_arr(elems).len())),
{
    let t = ser_str_arr(elems);
    assert(forall|k: int| 0 <= k < t.len() ==> full[pos + k] == #[trigger] t[k]) by {
        assert(forall|k: int|
            0 <= k < t.len() ==> full.subrange(pos, pos + t.len())[k] == #[trigger] t[k]);
    }
    assert(t[0] == '[');
    assert(full[pos + 0] == t[0]);
    if elems.len() == 0 {
        assert(t[1] == ']');
        assert(full[pos + 1] == t[1]);
        assert(sp_ws(full, pos + 1) == pos + 1);
        assert(sp_str_arr(full, pos) == Some((Seq::<Seq<char>>::empty(), pos + 2)));
        assert(Seq::<Seq<char>>::empty() =~= elems);
    } else {
        let g2 = quoted(elems[0]) + ser_arr_tail(elems.drop_first());
        assert(t == seq!['['] + g2);
        assert(t[1] == g2[0] && g2[0] == '"');
        assert(full[pos + 1] == t[1]);
        assert(sp_ws(full, pos + 1) == pos + 1);
        assert(full.subrange(pos + 1, pos + 1 + g2.len()) =~= g2) by {
            assert(forall|k: int| 0 <= k < g2.len() ==> t[1 + k] == #[trigger] g2[k]);
        }
        lemma_arr_items_round_trip(full, pos + 1, elems, Seq::empty());
        assert(Seq::<Seq<char>>::empty() + elems =~= elems);
    }
}

/// Law: the canonical members text `"k0":"v0"…}` parses back to
/// exactly the serialized members — provided all keys, including those
/// already accumulated, are distinct.
pub proof fn lemma_map_items_round_trip(
    full: Seq<char>,
    pos: int,
    pairs: Seq<(Seq<char>, Seq<char>)>,
    acc: Seq<(Seq<char>, Seq<char>)>,
)
    requires
        0 <= pos,
        pairs.len() >= 1,
        forall|i: int, j: int|
            0 <= i < j < pairs.len() ==> (#[trigger] pairs[i]).0 != (#[trigger] pairs[j]).0,
        forall|i: int, j: int|
            0 <= i < acc.len() && 0 <= j < pairs.len() ==> (#[trigger] acc[i]).0 != (
            #[trigger] pairs[j]).0,
        pos + ser_member(pairs[0]).len() + ser_map_tail(pairs.drop_first()).len() <= full.len(),
        full.subrange(
            pos,
            pos + ser_member(pairs[0]).len() + ser_map_tail(pairs.drop_first()).len(),
        ) == ser_member(pairs[0]) + ser_map_tail(pairs.drop_first()),
    ensures
        sp_str_map_items(full, pos, acc) == Some(
            (
                acc + pairs,
                pos + ser_member(pairs[0]).len() + ser_map_tail(pairs.drop_first()).len(),
            ),
        ),
    decreases pairs.len(),
{
    let p0 = pairs[0];
    let rest = pairs.drop_first();
    let m0 = ser_member(p0);
    let tl = ser_map_tail(rest);
    let g = m0 + tl;
    let qk = quoted(p0.0);
    let qv = quoted(p0.1);
    assert(forall|k: int| 0 <= k < g.len() ==> full[pos + k] == #[trigger] g[k]) by {
        assert(forall|k: int|
            0 <= k < g.len() ==> full.subrange(pos, pos + g.len())[k] == #[trigger] g[k]);
    }
    assert(m0 == qk + seq![':'] + qv);
    // The key.
    assert(g[0] == '"' && full[pos + 0] == g[0]);
    assert(sp_ws(full, pos) == pos);
    assert(full.subrange(pos, pos + qk.len()) =~= qk) by {
        assert(forall|k: int| 0 <= k < qk.len() ==> g[k] == #[trigger] qk[k]);
    }
    lemma_string_round_trip(full, pos, p0.0);
    let np = pos + qk.len();
    // The accumulated keys do not contain this one.
    assert(!map_has_key(acc, p0.0));
    // The colon.
    assert(g[qk.len() as int] == ':');
    assert(full[pos + qk.len()] == g[qk.len() as int]);
    assert(sp_ws(full, np) == np);
    // The value.
    let vp = np + 1;
    assert(g[qk.len() as int + 1] == qv[0] && qv[0] == '"');
    assert(full[pos + (qk.len() + 1)] == g[qk.len() as int + 1]);
    assert(sp_ws(full, vp) == vp);
    assert(full.subrange(vp, vp + qv.len()) =~= qv) by {
        assert(forall|k: int|
            0 <= k < qv.len() ==> g[qk.len() as int + 1 + k] == #[trigger] qv[k]);
        assert(forall|k: int|
            0 <= k < qv.len() ==> (#[trigger] full[vp + k]) == g[qk.len() as int + 1 + k]);
    }
    lemma_string_round_trip(full, vp, p0.1);
    let np2 = vp + qv.len();
    assert(np2 == pos + m0.len());
    assert(full[pos + m0.len()] == g[m0.len() as int]);
    assert(g[m0.len() as int] == tl[0]);
    if rest.len() == 0 {
        assert(tl[0] == '}');
        assert(sp_ws(full, np2) == np2);
        assert(sp_str_map_items(full, pos, acc) == Some((acc.push(p0), np2 + 1)));
        assert(acc.push(p0) =~= acc + pairs);
    } else {
        assert(tl == seq![','] + ser_member(rest[0]) + ser_map_tail(rest.drop_first()));
        assert(tl[0] == ',');
        assert(sp_ws(full, np2) == np2);
        let g2 = ser_member(rest[0]) + ser_map_tail(rest.drop_first());
        assert(tl.len() == 1 + g2.len());
        assert_seqs_equal!(full.subrange(np2 + 1, np2 + 1 + g2.len()) == g2, k => {
            assert(full.subrange(np2 + 1, np2 + 1 + g2.len())[k] == full[np2 + 1 + k]);
            assert(full[np2 + 1 + k] == g[m0.len() as int + 1 + k]);
            assert(g[m0.len() as int + 1 + k] == tl[1 + k]);
            assert(tl[1 + k] == g2[k]);
        });
        assert(forall|i: int, j: int|
            0 <= i < j < rest.len() ==> (#[trigger] rest[i]).0 != (#[trigger] rest[j]).0);
        assert(forall|i: int, j: int|
            0 <= i < acc.push(p0).len() && 0 <= j < rest.len() ==> (#[trigger] acc.push(p0)[i]).0
                != (#[trigger] rest[j]).0);
        lemma_map_items_round_trip(full, np2 + 1, rest, acc.push(p0));
        assert(acc.push(p0) + rest =~= acc + pairs);
    }
}

/// Law: the canonical compact text of any string-valued object with
/// distinct keys parses back to exactly its members, consuming exactly
/// that text.
pub proof fn lemma_map_round_trip(full: Seq<char>, pos: int, pairs: Seq<(Seq<char>, Seq<char>)>)
    requires
        0 <= pos,
        forall|i: int, j: int|
            0 <= i < j < pairs.len() ==> (#[trigger] pairs[i]).0 != (#[trigger] pairs[j]).0,
        pos + ser_str_map(pairs).len() <= full.len(),
        full.subrange(pos, pos + ser_str_map(pairs).len()) == ser_str_map(pairs),
    ensures
        sp_str_map(full, pos) == Some((pairs, pos + ser_str_map(pairs).len())),
{
    let t = ser_str_map(pairs);
    assert(forall|k: int| 0 <= k < t.len() ==> full[pos + k] == #[trigger] t[k]) by {
        assert(forall|k: int|
            0 <= k < t.len() ==> full.subrange(pos, pos + t.len())[k] == #[trigger] t[k]);
    }
    assert(t[0] == '{');
    assert(full[pos + 0] == t[0]);
    if pairs.len() == 0 {
        assert(t[1] == '}');
        assert(full[pos + 1] == t[1]);
        assert(sp_ws(full, pos + 1) == pos + 1);
        assert(sp_str_map(full, pos) == Some((Seq::<(Seq<char>, Seq<char>)>::empty(), pos + 2)));
        assert(Seq::<(Seq<char>, Seq<char>)>::empty() =~= pairs);
    } else {
        let g2 = ser_member(pairs[0]) + ser_map_tail(pairs.drop_first());
        assert(t == seq!['{'] + g2);
        assert(t[1] == g2[0] && g2[0] == '"');
        assert(full[pos + 1] == t[1]);
        assert(sp_ws(full, pos + 1) == pos + 1);
        assert(full.subrange(pos + 1, pos + 1 + g2.len()) =~= g2) by {
            assert(forall|k: int| 0 <= k < g2.len() ==> t[1 + k] == #[trigger] g2[k]);
        }
        lemma_map_items_round_trip(full, pos + 1, pairs, Seq::empty());
        assert(Seq::<(Seq<char>, Seq<char>)>::empty() + pairs =~= pairs);
    }
}

/// Appends the canonical compact text of a string array to `out`.
pub fn write_str_arr(out: &mut Vec<char>, elems: &Vec<String>)
    ensures
        final(out)@ == old(out)@ + ser_str_arr(views_of(elems@)),
{
    let ghost vs = views_of(elems@);
    out.push('[');
    if elems.len() == 0 {
        out.push(']');
        proof {
            assert(out@ =~= old(out)@ + ser_str_arr(vs));
        }
        return ;
    }
    let c0 = chars_of(elems[0].as_str());
    write_quoted(out, &c0);
    let mut j: usize = 1;
    proof {
        assert(vs[0] == elems@[0]@);
        assert(out@ =~= old(out)@ + seq!['['] + quoted(vs[0]));
    }
    while j < elems.len()
        invariant
            1 <= j <= elems@.len(),
            vs == views_of(elems@),
            vs.len() == elems@.len(),
            out@ + ser_arr_tail(vs.subrange(j as int, vs.len() as int)) == old(out)@ + ser_str_arr(
                vs,
            ),
        decreases elems@.len() - j,
    {
        proof {
            let suf = vs.subrange(j as int, vs.len() as int);
            assert(suf[0] == vs[j as int]);
            assert(suf.drop_first() =~= vs.subrange(j as int + 1, vs.len() as int));
            assert(vs[j as int] == elems@[j as int]@);
        }
        out.push(',');
        let cj = chars_of(elems[j].as_str());
        write_quoted(out, &cj);
        proof {
            assert(out@ + ser_arr_tail(vs.subrange(j as int + 1, vs.len() as int)) =~= old(out)@
                + ser_str_arr(vs));
        }
        j = j + 1;
    }
    out.push(']');
    proof {
        assert(vs.subrange(j as int, vs.len() as int) =~= Seq::<Seq<char>>::empty());
        assert(out@ =~= old(out)@ + ser_str_arr(vs));
    }
}

/// Appends the canonical compact text of a string-valued object to
/// `out`.
pub fn write_str_map(out: &mut Vec<char>, pairs: &Vec<(String, String)>)
    ensures
        final(out)@ == old(out)@ + ser_str_map(pair_views_of(pairs@)),
{
    let ghost vs = pair_views_of(pairs@);
    out.push('{');
    if pairs.len() == 0 {
        out.push('}');
        proof {
            assert(out@ =~= old(out)@ + ser_str_map(vs));
        }
        return ;
    }
    let k0 = chars_of(pairs[0].0.as_str());
    write_quoted(out, &k0);
    out.push(':');
    let v0 = chars_of(pairs[0].1.as_str());
    write_quoted(out, &v0);
    let mut j: usize = 1;
    proof {
        assert(vs[0] == (pairs@[0].0@, pairs@[0].1@));
        assert(ser_member(vs[0]) == quoted(pairs@[0].0@) + seq![':'] + quoted(pairs@[0].1@));
        assert(out@ =~= old(out)@ + seq!['{'] + ser_member(vs[0]));
    }
    while j < pairs.len()
        invariant
            1 <= j <= pairs@.len(),
            vs == pair_views_of(pairs@),
            vs.len() == pairs@.len(),
            out@ + ser_map_tail(vs.subrange(j as int, vs.len() as int)) == old(out)@ + ser_str_map(
                vs,
            ),
        decreases pairs@.len() - j,
    {
        proof {
            let suf = vs.subrange(j as int, vs.len() as int);
            assert(suf[0] == vs[j as int]);
            assert(suf.drop_first() =~= vs.subrange(j as int + 1, vs.len() as int));
            assert(vs[j as int] == (pairs@[j as int].0@, pairs@[j as int].1@));
        }
        out.push(',');
        let kj = chars_of(pairs[j].0.as_str());
        write_quoted(out, &kj);
        out.push(':');
        let vj = chars_of(pairs[j].1.as_str());
        write_quoted(out, &vj);
        proof {
            assert(out@ + ser_map_tail(vs.subrange(j as int + 1, vs.len() as int)) =~= old(out)@
                + ser_str_map(vs));
        }
        j = j + 1;
    }
    out.push('}');
    proof {
        assert(vs.subrange(j as int, vs.len() as int) =~= Seq::<(Seq<char>, Seq<char>)>::empty());
        assert(out@ =~= old(out)@ + ser_str_map(vs));
    }
}

/// Parses a string array at `pos`, returning its elements and the
/// position just past the closing bracket.
pub fn parse_str_arr(s: &Vec<char>, pos: usize) -> (r: Option<(Vec<String>, usize)>)
    ensures
        r is None ==> sp_str_arr(s@, pos as int) is None,
        r is Some ==> sp_str_arr(s@, pos as int) == Some(
            (views_of((r->0).0@), ((r->0).1) as int),
        ),
{
    if pos >= s.len() || s[pos] != '[' {
        return None;
    }
    let p = skip_ws(s, pos + 1);
    if p < s.len() && s[p] == ']' {
        let empty_vec: Vec<String> = Vec::new();
        proof {
            assert(views_of(empty_vec@) =~= Seq::<Seq<char>>::empty());
        }
        return Some((empty_vec, p + 1));
    }
    let mut i: usize = pos + 1;
    let mut acc: Vec<String> = Vec::new();
    proof {
        assert(views_of(acc@) =~= Seq::<Seq<char>>::empty());
    }
    loop
        invariant
            i <= s@.len(),
            sp_str_arr(s@, pos as int) == sp_str_arr_items(s@, pos as int + 1, Seq::empty()),
            sp_str_arr_items(s@, pos as int + 1, Seq::empty()) == sp_str_arr_items(
                s@,
                i as int,
                views_of(acc@),
            ),
        decreases s@.len() - i,
    {
        let p2 = skip_ws(s, i);
        let parsed = parse_string(s, p2);
        if parsed.is_none() {
            return None;
        }
        let (ks, np) = parsed.unwrap();
        proof {
            lemma_string_advances(s@, p2 as int);
        }
        let q = skip_ws(s, np);
        let ghost old_views = views_of(acc@);
        if q < s.len() && s[q] == ',' {
            let sv = string_from_chars(&ks);
            acc.push(sv);
            proof {
                assert(views_of(acc@) =~= old_views.push(ks@));
            }
            i = q + 1;
        } else if q < s.len() && s[q] == ']' {
            let sv = string_from_chars(&ks);
            acc.push(sv);
            proof {
                assert(views_of(acc@) =~= old_views.push(ks@));
            }
            return Some((acc, q + 1));
        } else {
            return None;
        }
    }
}

/// Whether `k` is already a key of `m`.
pub fn map_key_present(m: &Vec<(String, String)>, k: &Vec<char>) -> (r: bool)
    ensures
        r == map_has_key(pair_views_of(m@), k@),
{
    let mut j: usize = 0;
    while j < m.len()
        invariant
            j <= m@.len(),
            forall|jj: int| 0 <= jj < j ==> (#[trigger] pair_views_of(m@)[jj]).0 != k@,
        decreases m@.len() - j,
    {
        let kc = chars_of(m[j].0.as_str());
        if eq_chars(&kc, k) {
            proof {
                assert((pair_views_of(m@)[j as int]).0 == k@);
            }
            return true;
        }
        j = j + 1;
    }
    false
}

/// Parses a string-valued object at `pos`, returning its members in
/// order and the position just past the closing brace.  Members with a
/// repeated key are rejected, so the returned keys are unique.
pub fn parse_str_map(s: &Vec<char>, pos: usize) -> (r: Option<(Vec<(String, String)>, usize)>)
    ensures
        r is None ==> sp_str_map(s@, pos as int) is None,
        r is Some ==> sp_str_map(s@, pos as int) == Some(
            (pair_views_of((r->0).0@), ((r->0).1) as int),
        ),
        r is Some ==> unique_keys(pair_views_of((r->0).0@)),
{
    if pos >= s.len() || s[pos] != '{' {
        return None;
    }
    let p = skip_ws(s, pos + 1);
    if p < s.len() && s[p] == '}' {
        let empty_vec: Vec<(String, String)> = Vec::new();
        proof {
            assert(pair_views_of(empty_vec@) =~= Seq::<(Seq<char>, Seq<char>)>::empty());
        }
        proof {
            lemma_map_unique(s@, pos as int);
        }
        return Some((empty_vec, p + 1));
    }
    let mut i: usize = pos + 1;
    let mut acc: Vec<(String, String)> = Vec::new();
    proof {
        assert(pair_views_of(acc@) =~= Seq::<(Seq<char>, Seq<char>)>::empty());
    }
    loop
        invariant
            i <= s@.len(),
            sp_str_map(s@, pos as int) == sp_str_map_items(s@, pos as int + 1, Seq::empty()),
            sp_str_map_items(s@, pos as int + 1, Seq::empty()) == sp_str_map_items(
                s@,
                i as int,
                pair_views_of(acc@),
            ),
        decreases s@.len() - i,
    {
        let p2 = skip_ws(s, i);
        let parsed_key = parse_string(s, p2);
        if parsed_key.is_none() {
            return None;
        }
        let (kc, np) = parsed_key.unwrap();
        proof {
            lemma_string_advances(s@, p2 as int);
        }
        if map_key_present(&acc, &kc) {
            return None;
        }
        let q = skip_ws(s, np);
        if !(q < s.len() && s[q] == ':') {
            return None;
        }
        let t = skip_ws(s, q + 1);
        let parsed_val = parse_string(s, t);
        if parsed_val.is_none() {
            return None;
        }
        let (vc, np2) = parsed_val.unwrap();
        proof {
            lemma_string_advances(s@, t as int);
        }
        let u = skip_ws(s, np2);
        let ghost old_views = pair_views_of(acc@);
        if u < s.len() && s[u] == ',' {
            let ks = string_from_chars(&kc);
            let vs = string_from_chars(&vc);
            acc.push((ks, vs));
            proof {
                assert(pair_views_of(acc@) =~= old_views.push((kc@, vc@)));
            }
            i = u + 1;
        } else if u < s.len() && s[u] == '}' {
            let ks = string_from_chars(&kc);
            let vs = string_from_chars(&vc);
            acc.push((ks, vs));
            proof {
                assert(pair_views_of(acc@) =~= old_views.push((kc@, vc@)));
                lemma_map_unique(s@, pos as int);
            }
            return Some((acc, u + 1));
        } else {
            return None;
        }
    }
}

} // verus!

