//! Interpretation of a PID file's contents.
//!
//! A PID file holds one trimmed positive decimal integer.  Anything else
//! — empty, non-numeric, non-positive, out of range — means "no server
//! known" and never aborts the flow; the caller treats it as stale state.

use vstd::prelude::*;
use crate::strings::chars_of;

verus! {

/// What an attempt to read the PID file observed.  `Invalid` covers an
/// unreadable file as well as contents that [`parse_pid`] rejects; both
/// are treated as stale state, never as a hard failure.
#[derive(Clone, Copy, PartialEq, Eq, Structural, Debug)]
pub enum PidFile {
    /// No PID file exists.
    Missing,
    /// A PID file exists but does not hold a usable PID.
    Invalid,
    /// The PID file holds this (positive) PID.
    Recorded(i32),
}

/// ASCII whitespace, as trimmed from around the recorded integer.
pub open spec fn is_space(c: char) -> bool {
    c == ' ' || c == '\t' || c == '\n' || c == '\r' || c == '\u{b}' || c == '\u{c}'
}

/// `s` without leading whitespace.
pub open spec fn trim_front(s: Seq<char>) -> Seq<char>
    decreases s.len(),
{
    if s.len() > 0 && is_space(s[0]) {
        trim_front(s.drop_first())
    } else {
        s
    }
}

/// `s` without trailing whitespace.
pub open spec fn trim_back(s: Seq<char>) -> Seq<char>
    decreases s.len(),
{
    if s.len() > 0 && is_space(s.last()) {
        trim_back(s.drop_last())
    } else {
        s
    }
}

/// `s` without surrounding whitespace.
pub open spec fn trim_view(s: Seq<char>) -> Seq<char> {
    trim_back(trim_front(s))
}

/// Whether every character of `s` is a decimal digit.
pub open spec fn all_digits(s: Seq<char>) -> bool {
    forall|i: int| 0 <= i < s.len() ==> '0' <= #[trigger] s[i] <= '9'
}

/// The value of a run of decimal digits.
pub open spec fn digits_val(s: Seq<char>) -> int
    decreases s.len(),
{
    if s.len() == 0 {
        0
    } else {
        digits_val(s.drop_last()) * 10 + (s.last() as int - '0' as int)
    }
}

/// The digit run of a PID file's contents: the trimmed text, less one
/// optional leading `+`.
pub open spec fn pid_digits(s: Seq<char>) -> Seq<char> {
    let t0 = trim_view(s);
    if t0.len() > 0 && t0[0] == '+' {
        t0.drop_first()
    } else {
        t0
    }
}

/// The PID recorded in a file with contents `s`: surrounding whitespace
/// is ignored, one leading `+` is allowed, and the digits must name a
/// value in `1 ..= i32::MAX`.
pub open spec fn spec_parse_pid(s: Seq<char>) -> Option<i32> {
    let t = pid_digits(s);
    if t.len() == 0 || !all_digits(t) {
        None
    } else if digits_val(t) <= 0 || digits_val(t) > i32::MAX {
        None
    } else {
        Some(digits_val(t) as i32)
    }
}

pub proof fn lemma_digits_val_nonneg(s: Seq<char>)
    requires
        all_digits(s),
    ensures
        digits_val(s) >= 0,
    decreases s.len(),
{
    if s.len() > 0 {
        assert(all_digits(s.drop_last())) by {
            assert(forall|i: int|
                0 <= i < s.len() - 1 ==> #[trigger] s.drop_last()[i] == s[i]);
        }
        lemma_digits_val_nonneg(s.drop_last());
    }
}

/// Parses the contents of a PID file.  Returns the recorded PID exactly
/// when the trimmed text is a positive decimal integer that fits an
/// `i32`; returns `None` on every other input.
pub fn parse_pid(contents: &str) -> (r: Option<i32>)
    ensures
        r == spec_parse_pid(contents@),
        r is Some ==> r->0 > 0,
{
    let cs = chars_of(contents);
    let n = cs.len();
    let ghost full = cs@;
    proof {
        assert(full.subrange(0, n as int) =~= full);
    }

    // Trim leading whitespace.
    let mut start: usize = 0;
    while start < n && is_space_char(cs[start])
        invariant
            start <= n,
            n == full.len(),
            cs@ == full,
            trim_front(full) == trim_front(full.subrange(start as int, n as int)),
        decreases n - start,
    {
        proof {
            let rest = full.subrange(start as int, n as int);
            assert(rest.drop_first() =~= full.subrange(start as int + 1, n as int));
        }
        start = start + 1;
    }
    proof {
        let rest = full.subrange(start as int, n as int);
        if start < n {
            assert(rest[0] == full[start as int]);
        }
        assert(trim_front(full) == rest);
    }

    // Trim trailing whitespace.
    let mut end: usize = n;
    while end > start && is_space_char(cs[end - 1])
        invariant
            start <= end <= n,
            n == full.len(),
            cs@ == full,
            trim_front(full) == full.subrange(start as int, n as int),
            trim_back(full.subrange(start as int, n as int)) == trim_back(
                full.subrange(start as int, end as int),
            ),
        decreases end,
    {
        proof {
            let cur = full.subrange(start as int, end as int);
            assert(cur.last() == full[end - 1]);
            assert(cur.drop_last() =~= full.subrange(start as int, end as int - 1));
        }
        end = end - 1;
    }
    proof {
        let cur = full.subrange(start as int, end as int);
        if end > start {
            assert(cur.last() == full[end - 1]);
        }
        assert(trim_view(full) == cur);
    }

    // Optional leading '+'.
    let ghost trimmed = full.subrange(start as int, end as int);
    if start < end && cs[start] == '+' {
        start = start + 1;
        proof {
            assert(trimmed[0] == '+');
            assert(trimmed.drop_first() =~= full.subrange(start as int, end as int));
        }
    }
    let ghost digits = full.subrange(start as int, end as int);
    proof {
        assert(digits == pid_digits(full));
    }

    if start == end {
        proof {
            assert(digits =~= Seq::<char>::empty());
        }
        return None;
    }
    // Accumulate the digit value, saturating once it can no longer be a
    // valid PID.
    let mut acc: i64 = 0;
    let mut over: bool = false;
    let mut i: usize = start;
    while i < end
        invariant
            start <= i <= end <= n,
            n == full.len(),
            cs@ == full,
            full == contents@,
            digits == full.subrange(start as int, end as int),
            digits == pid_digits(full),
            all_digits(full.subrange(start as int, i as int)),
            over == (digits_val(full.subrange(start as int, i as int)) > i32::MAX),
            !over ==> acc == digits_val(full.subrange(start as int, i as int)),
            0 <= acc <= i32::MAX,
        decreases end - i,
    {
        let c = cs[i];
        if c < '0' || c > '9' {
            proof {
                assert(digits[i - start] == full[i as int]);
                assert(!all_digits(digits));
            }
            return None;
        }
        let d: i64 = (c as u32 as i64) - 48;
        proof {
            let pre = full.subrange(start as int, i as int);
            let nxt = full.subrange(start as int, i as int + 1);
            assert(nxt.drop_last() =~= pre);
            assert(nxt.last() == full[i as int]);
            assert(all_digits(nxt));
            if over {
                lemma_digits_val_nonneg(pre);
            }
        }
        if over {
        } else {
            let next = acc * 10 + d;
            if next > i32::MAX as i64 {
                over = true;
            } else {
                acc = next;
            }
        }
        i = i + 1;
    }
    proof {
        assert(full.subrange(start as int, i as int) =~= digits);
    }
    if over {
        return None;
    }
    if acc <= 0 {
        return None;
    }
    Some(acc as i32)
}

/// Executable form of [`is_space`].
pub fn is_space_char(c: char) -> (r: bool)
    ensures
        r == is_space(c),
{
    c == ' ' || c == '\t' || c == '\n' || c == '\r' || c == '\u{b}' || c == '\u{c}'
}

} // verus!
