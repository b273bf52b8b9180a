//! Recognizer for rate strings.
//!
//! A rate field is accepted exactly when its string is a floating-point
//! literal in the grammar that `str::parse` documents for float types:
//! an optional sign, then either `inf`, `infinity` or `nan` (each
//! case-insensitive) or a number `digits [ '.' digits* ] [ exponent ]` /
//! `'.' digits+ [ exponent ]`, where an exponent is `e`/`E`, an optional
//! sign, and at least one digit. Upstream sentinel strings such as `-.--`
//! fall outside this grammar and are rejected.

use vstd::prelude::*;
use crate::text::is_digit;

verus! {

/// First index at or after `i` that does not carry a decimal digit.
pub open spec fn digit_run_end(s: Seq<char>, i: int) -> int
    decreases s.len() - i when 0 <= i <= s.len()
{
    if i < 0 || i >= s.len() || !is_digit(s[i]) {
        i
    } else {
        digit_run_end(s, i + 1)
    }
}

/// The run end lies between `i` and the end of the string, and everything in
/// the run is a digit.
pub proof fn lemma_digit_run_end_bounds(s: Seq<char>, i: int)
    requires
        0 <= i <= s.len(),
    ensures
        i <= digit_run_end(s, i) <= s.len(),
    decreases s.len() - i,
{
    if i < s.len() && is_digit(s[i]) {
        lemma_digit_run_end_bounds(s, i + 1);
    }
}

/// `c` is `low` or its upper-case form `up`.
pub open spec fn ci(c: char, low: char, up: char) -> bool {
    c == low || c == up
}

/// `t` reads `inf`, `infinity` or `nan`, case-insensitively.
pub open spec fn special_float_word(t: Seq<char>) -> bool {
    ||| (t.len() == 3 && ci(t[0], 'i', 'I') && ci(t[1], 'n', 'N') && ci(t[2], 'f', 'F'))
    ||| (t.len() == 8 && ci(t[0], 'i', 'I') && ci(t[1], 'n', 'N') && ci(t[2], 'f', 'F')
        && ci(t[3], 'i', 'I') && ci(t[4], 'n', 'N') && ci(t[5], 'i', 'I') && ci(t[6], 't', 'T')
        && ci(t[7], 'y', 'Y'))
    ||| (t.len() == 3 && ci(t[0], 'n', 'N') && ci(t[1], 'a', 'A') && ci(t[2], 'n', 'N'))
}

/// An exponent part fills `t` from position `i` to the end.
pub open spec fn exp_syntax(t: Seq<char>, i: int) -> bool {
    &&& i < t.len()
    &&& (t[i] == 'e' || t[i] == 'E')
    &&& {
        let j = if i + 1 < t.len() && (t[i + 1] == '+' || t[i + 1] == '-') {
            i + 2
        } else {
            i + 1
        };
        digit_run_end(t, j) > j && digit_run_end(t, j) == t.len()
    }
}

/// An unsigned number (mantissa with optional exponent) fills all of `t`.
pub open spec fn number_syntax(t: Seq<char>) -> bool {
    t.len() > 0 && {
        let de = digit_run_end(t, 0);
        if de > 0 {
            if de == t.len() {
                true
            } else if t[de] == '.' {
                let fe = digit_run_end(t, de + 1);
                fe == t.len() || exp_syntax(t, fe)
            } else {
                exp_syntax(t, de)
            }
        } else {
            t[0] == '.' && {
                let fe = digit_run_end(t, 1);
                fe > 1 && (fe == t.len() || exp_syntax(t, fe))
            }
        }
    }
}

/// Whether `s` is a floating-point literal: an optional sign, then a special
/// word or a number.
pub open spec fn rate_parses(s: Seq<char>) -> bool {
    let t = if s.len() >= 1 && (s[0] == '+' || s[0] == '-') {
        s.drop_first()
    } else {
        s
    };
    special_float_word(t) || number_syntax(t)
}

/// First index at or after `i` that does not carry a decimal digit.
fn digit_run_end_exec(s: &str, i: usize) -> (r: usize)
    requires
        i <= s@.len(),
    ensures
        r == digit_run_end(s@, i as int),
        i <= r <= s@.len(),
    decreases s@.len() - i,
{
    let n = s.unicode_len();
    if i < n {
        let c = s.get_char(i);
        if crate::text::digit_of_char(c).is_some() {
            return digit_run_end_exec(s, i + 1);
        }
    }
    i
}

/// Whether the characters from `from` on are one of the special words.
fn special_word_from(s: &str, from: usize) -> (r: bool)
    requires
        from <= s@.len(),
    ensures
        r == special_float_word(s@.skip(from as int)),
{
    let n = s.unicode_len();
    let rest = n - from;
    if rest == 3 {
        let c0 = s.get_char(from);
        let c1 = s.get_char(from + 1);
        let c2 = s.get_char(from + 2);
        let inf = (c0 == 'i' || c0 == 'I') && (c1 == 'n' || c1 == 'N') && (c2 == 'f' || c2
            == 'F');
        let nan = (c0 == 'n' || c0 == 'N') && (c1 == 'a' || c1 == 'A') && (c2 == 'n' || c2
            == 'N');
        inf || nan
    } else if rest == 8 {
        let c0 = s.get_char(from);
        let c1 = s.get_char(from + 1);
        let c2 = s.get_char(from + 2);
        let c3 = s.get_char(from + 3);
        let c4 = s.get_char(from + 4);
        let c5 = s.get_char(from + 5);
        let c6 = s.get_char(from + 6);
        let c7 = s.get_char(from + 7);
        (c0 == 'i' || c0 == 'I') && (c1 == 'n' || c1 == 'N') && (c2 == 'f' || c2 == 'F') && (c3
            == 'i' || c3 == 'I') && (c4 == 'n' || c4 == 'N') && (c5 == 'i' || c5 == 'I') && (c6
            == 't' || c6 == 'T') && (c7 == 'y' || c7 == 'Y')
    } else {
        false
    }
}

/// Whether an exponent part fills the characters from `i` to the end.
fn exp_syntax_exec(s: &str, i: usize) -> (r: bool)
    requires
        i <= s@.len(),
    ensures
        r == exp_syntax(s@, i as int),
{
    let n = s.unicode_len();
    if i >= n {
        return false;
    }
    let c = s.get_char(i);
    if c != 'e' && c != 'E' {
        return false;
    }
    let mut j: usize = i + 1;
    if j < n {
        let c1 = s.get_char(j);
        if c1 == '+' || c1 == '-' {
            j = j + 1;
        }
    }
    let ee = digit_run_end_exec(s, j);
    ee > j && ee == n
}

/// Whether the string is a floating-point literal in the documented grammar.
pub fn rate_string_parses(s: &str) -> (r: bool)
    ensures
        r == rate_parses(s@),
{
    let n = s.unicode_len();
    let mut from: usize = 0;
    if n >= 1 {
        let c0 = s.get_char(0);
        if c0 == '+' || c0 == '-' {
            from = 1;
        }
    }
    let ghost t = if from == 1 {
        s@.drop_first()
    } else {
        s@
    };
    proof {
        assert(t =~= s@.skip(from as int));
    }
    if special_word_from(s, from) {
        return true;
    }
    // number_syntax on s@[from..]; indices below are absolute, offset by `from`
    if from >= n {
        return false;
    }
    let de = digit_run_end_exec(s, from);
    proof {
        lemma_digit_run_skip(s@, from as int, from as int);
    }
    if de > from {
        if de == n {
            return true;
        }
        let c = s.get_char(de);
        if c == '.' {
            let fe = digit_run_end_exec(s, de + 1);
            proof {
                lemma_digit_run_skip(s@, from as int, de as int + 1);
                lemma_exp_skip(s@, from as int, fe as int);
            }
            fe == n || exp_syntax_exec(s, fe)
        } else {
            proof {
                lemma_exp_skip(s@, from as int, de as int);
            }
            exp_syntax_exec(s, de)
        }
    } else {
        let c = s.get_char(from);
        if c != '.' {
            return false;
        }
        let fe = digit_run_end_exec(s, from + 1);
        proof {
            lemma_digit_run_skip(s@, from as int, from as int + 1);
            lemma_exp_skip(s@, from as int, fe as int);
        }
        fe > from + 1 && (fe == n || exp_syntax_exec(s, fe))
    }
}

/// A digit run measured in the suffix `s[from..]` ends where the run in `s`
/// ends, shifted by `from`.
proof fn lemma_digit_run_skip(s: Seq<char>, from: int, i: int)
    requires
        0 <= from <= i <= s.len(),
    ensures
        digit_run_end(s.skip(from), i - from) == digit_run_end(s, i) - from,
    decreases s.len() - i,
{
    lemma_digit_run_end_bounds(s, i);
    if i < s.len() && is_digit(s[i]) {
        lemma_digit_run_skip(s, from, i + 1);
    }
}

/// An exponent read in the suffix `s[from..]` is the exponent read in `s`,
/// shifted by `from`.
proof fn lemma_exp_skip(s: Seq<char>, from: int, i: int)
    requires
        0 <= from <= i <= s.len(),
    ensures
        exp_syntax(s.skip(from), i - from) == exp_syntax(s, i),
{
    if i < s.len() && (s[i] == 'e' || s[i] == 'E') {
        let j = if i + 1 < s.len() && (s[i + 1] == '+' || s[i + 1] == '-') {
            i + 2
        } else {
            i + 1
        };
        lemma_digit_run_end_bounds(s, j);
        lemma_digit_run_skip(s, from, j);
    }
}

} // verus!
