//! Turning one line of input into a guess: whitespace trimming and base-10
//! unsigned parsing.
//!
//! A line is a guess when, after surrounding whitespace is removed, what is
//! left is an optional `+` sign followed by one or more decimal digits whose
//! value fits in a `u32`. Anything else is a recoverable parse failure.

use vstd::prelude::*;
use vstd::string::StrSliceExecFns;

verus! {

/// A whitespace character: one whose code point carries the Unicode
/// `White_Space` property, the set that `str::trim` removes.
pub open spec fn is_space(c: char) -> bool {
    let u = c as int;
    u == 0x20 || (0x09 <= u && u <= 0x0D) || u == 0x85 || u == 0xA0 || u == 0x1680 || (0x2000
        <= u && u <= 0x200A) || u == 0x2028 || u == 0x2029 || u == 0x202F || u == 0x205F || u
        == 0x3000
}

/// A decimal digit.
pub open spec fn is_digit(c: char) -> bool {
    0x30 <= c as int && c as int <= 0x39
}

/// The value of one decimal digit.
pub open spec fn digit_val(c: char) -> int {
    c as int - 0x30
}

/// Every character of `s` is a decimal digit.
pub open spec fn all_digits(s: Seq<char>) -> bool {
    forall|i: int| 0 <= i < s.len() ==> is_digit(#[trigger] s[i])
}

/// The value of a string of decimal digits, most significant first.
pub open spec fn digits_val(s: Seq<char>) -> int
    decreases s.len(),
{
    if s.len() == 0 {
        0
    } else {
        digits_val(s.drop_last()) * 10 + digit_val(s.last())
    }
}

/// `s` with its leading whitespace removed.
pub open spec fn trim_start_spec(s: Seq<char>) -> Seq<char>
    decreases s.len(),
{
    if s.len() > 0 && is_space(s[0]) {
        trim_start_spec(s.drop_first())
    } else {
        s
    }
}

/// `s` with its trailing whitespace removed.
pub open spec fn trim_end_spec(s: Seq<char>) -> Seq<char>
    decreases s.len(),
{
    if s.len() > 0 && is_space(s.last()) {
        trim_end_spec(s.drop_last())
    } else {
        s
    }
}

/// `s` with surrounding whitespace removed.
pub open spec fn trim_spec(s: Seq<char>) -> Seq<char> {
    trim_end_spec(trim_start_spec(s))
}

/// The digits of a numeral: what follows an optional leading `+` sign.
pub open spec fn numeral_of(s: Seq<char>) -> Seq<char> {
    if s.len() > 0 && s[0] == '+' {
        s.drop_first()
    } else {
        s
    }
}

/// `s` (already trimmed) is a well-formed guess whose value fits in a `u32`.
pub open spec fn parses_to_u32(s: Seq<char>) -> bool {
    let d = numeral_of(s);
    d.len() > 0 && all_digits(d) && digits_val(d) <= u32::MAX
}

/// The guess a line of input stands for, if any: trim it, then read it as an
/// unsigned numeral.
pub open spec fn guess_of(line: Seq<char>) -> Option<u32> {
    let t = trim_spec(line);
    if parses_to_u32(t) {
        Some(digits_val(numeral_of(t)) as u32)
    } else {
        None
    }
}

/// Removing leading whitespace keeps exactly the suffix that starts at the
/// first non-whitespace character.
proof fn lemma_trim_start_subrange(s: Seq<char>, a: int)
    requires
        0 <= a <= s.len(),
        forall|k: int| 0 <= k < a ==> is_space(#[trigger] s[k]),
        a < s.len() ==> !is_space(s[a]),
    ensures
        trim_start_spec(s) == s.subrange(a, s.len() as int),
    decreases a,
{
    if a == 0 {
        assert(s.subrange(0, s.len() as int) =~= s);
    } else {
        let rest = s.drop_first();
        lemma_trim_start_subrange(rest, a - 1);
        assert(rest.subrange(a - 1, rest.len() as int) =~= s.subrange(a, s.len() as int));
    }
}

/// Removing trailing whitespace keeps exactly the prefix that ends after the
/// last non-whitespace character.
proof fn lemma_trim_end_subrange(s: Seq<char>, b: int)
    requires
        0 <= b <= s.len(),
        forall|k: int| b <= k < s.len() ==> is_space(#[trigger] s[k]),
        b > 0 ==> !is_space(s[b - 1]),
    ensures
        trim_end_spec(s) == s.subrange(0, b),
    decreases s.len() - b,
{
    if b == s.len() {
        assert(s.subrange(0, s.len() as int) =~= s);
    } else {
        let rest = s.drop_last();
        assert(is_space(s.last()));
        lemma_trim_end_subrange(rest, b);
        assert(rest.subrange(0, b) =~= s.subrange(0, b));
    }
}

/// Trimming keeps exactly the characters between the first and the last
/// non-whitespace character.
proof fn lemma_trim_subrange(s: Seq<char>, a: int, b: int)
    requires
        0 <= a <= b <= s.len(),
        forall|k: int| 0 <= k < a ==> is_space(#[trigger] s[k]),
        forall|k: int| b <= k < s.len() ==> is_space(#[trigger] s[k]),
        a < s.len() ==> !is_space(s[a]),
        b > 0 && a < b ==> !is_space(s[b - 1]),
        a == s.len() ==> b == a,
    ensures
        trim_spec(s) == s.subrange(a, b),
{
    lemma_trim_start_subrange(s, a);
    let t = s.subrange(a, s.len() as int);
    if a == b {
        lemma_trim_end_subrange(t, 0);
        assert(t.subrange(0, 0) =~= s.subrange(a, b));
    } else {
        lemma_trim_end_subrange(t, b - a);
        assert(t.subrange(0, b - a) =~= s.subrange(a, b));
    }
}

/// Whether `c` is a whitespace character.
pub fn is_space_char(c: char) -> (b: bool)
    ensures
        b == is_space(c),
{
    let u = c as u32;
    u == 0x20 || (0x09 <= u && u <= 0x0D) || u == 0x85 || u == 0xA0 || u == 0x1680 || (0x2000
        <= u && u <= 0x200A) || u == 0x2028 || u == 0x2029 || u == 0x202F || u == 0x205F || u
        == 0x3000
}

/// `s` with surrounding whitespace removed.
pub fn trimmed(s: &str) -> (r: &str)
    ensures
        r@ == trim_spec(s@),
{
    let n = s.unicode_len();
    let mut a: usize = 0;
    while a < n && is_space_char(s.get_char(a))
        invariant
            n == s@.len(),
            0 <= a <= n,
            forall|k: int| 0 <= k < a ==> is_space(#[trigger] s@[k]),
        decreases n - a,
    {
        a += 1;
    }
    let mut b: usize = n;
    while b > a && is_space_char(s.get_char(b - 1))
        invariant
            n == s@.len(),
            0 <= a <= b <= n,
            a < n ==> !is_space(s@[a as int]),
            forall|k: int| b <= k < n ==> is_space(#[trigger] s@[k]),
        decreases b,
    {
        b -= 1;
    }
    proof {
        lemma_trim_subrange(s@, a as int, b as int);
    }
    s.substring_char(a, b)
}

/// The value of a digit string is never negative.
proof fn lemma_digits_val_nonneg(s: Seq<char>)
    requires
        all_digits(s),
    ensures
        digits_val(s) >= 0,
    decreases s.len(),
{
    if s.len() > 0 {
        assert(all_digits(s.drop_last()));
        lemma_digits_val_nonneg(s.drop_last());
    }
}

/// A prefix of a digit string never has a larger value than the whole.
proof fn lemma_digits_val_prefix_le(s: Seq<char>, k: int)
    requires
        all_digits(s),
        0 <= k <= s.len(),
    ensures
        digits_val(s.subrange(0, k)) <= digits_val(s),
    decreases s.len(),
{
    if k == s.len() {
        assert(s.subrange(0, k) =~= s);
    } else {
        let r = s.drop_last();
        assert(all_digits(r));
        lemma_digits_val_nonneg(r);
        lemma_digits_val_prefix_le(r, k);
        assert(r.subrange(0, k) =~= s.subrange(0, k));
    }
}

/// A recoverable failure to read a line of input as a guess: the text, once
/// trimmed, is not an unsigned numeral that fits in a `u32`.
#[derive(Clone, Copy, Debug, PartialEq, Eq, Structural)]
pub struct ParseFailure;

/// Read one line of input as a guess: trim surrounding whitespace, then
/// parse what is left as a base-10 unsigned integer with an optional leading
/// `+` sign.
pub fn parse_guess(line: &str) -> (r: Result<u32, ParseFailure>)
    ensures
        guess_of(line@) matches Some(g) ==> r == Ok::<u32, ParseFailure>(g),
        guess_of(line@) is None ==> r == Err::<u32, ParseFailure>(ParseFailure),
{
    let t = trimmed(line);
    let n = t.unicode_len();
    if n == 0 {
        return Err(ParseFailure);
    }
    let start: usize = if t.get_char(0) == '+' {
        1
    } else {
        0
    };
    let ghost digs = numeral_of(t@);
    proof {
        if start == 1 {
            assert(digs =~= t@.subrange(1, n as int));
        } else {
            assert(digs =~= t@.subrange(0, n as int));
        }
    }
    if start == n {
        return Err(ParseFailure);
    }
    let mut acc: u32 = 0;
    let mut i: usize = start;
    while i < n
        invariant
            t@ == trim_spec(line@),
            n == t@.len(),
            start <= i <= n,
            start < n,
            digs == numeral_of(t@),
            digs == t@.subrange(start as int, n as int),
            all_digits(digs.subrange(0, i - start)),
            acc == digits_val(digs.subrange(0, i - start)),
        decreases n - i,
    {
        let c = t.get_char(i);
        let u = c as u32;
        proof {
            assert(c == digs[i - start]);
        }
        if u < 0x30 || u > 0x39 {
            proof {
                assert(!is_digit(digs[i - start]));
            }
            return Err(ParseFailure);
        }
        let d = u - 0x30;
        let wide: u64 = acc as u64 * 10 + d as u64;
        proof {
            assert(digs.subrange(0, i - start + 1).drop_last() =~= digs.subrange(0, i - start));
            assert(digs.subrange(0, i - start + 1).last() == digs[i - start]);
        }
        if wide > u32::MAX as u64 {
            proof {
                if all_digits(digs) {
                    lemma_digits_val_prefix_le(digs, i - start + 1);
                }
            }
            return Err(ParseFailure);
        }
        acc = wide as u32;
        i += 1;
    }
    proof {
        assert(digs.subrange(0, n - start) =~= digs);
    }
    Ok(acc)
}

} // verus!
