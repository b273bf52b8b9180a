//! Small verified text helpers: decimal rendering with optional zero padding,
//! digit parsing, and character-wise string equality.

use vstd::prelude::*;

verus! {

/// The decimal digit character for a value in 0..=9.
pub open spec fn digit_char(d: int) -> char {
    if d == 0 {
        '0'
    } else if d == 1 {
        '1'
    } else if d == 2 {
        '2'
    } else if d == 3 {
        '3'
    } else if d == 4 {
        '4'
    } else if d == 5 {
        '5'
    } else if d == 6 {
        '6'
    } else if d == 7 {
        '7'
    } else if d == 8 {
        '8'
    } else {
        '9'
    }
}

/// The numeric value of a decimal digit character, or -1 for any other char.
pub open spec fn digit_val(c: char) -> int {
    if c == '0' {
        0
    } else if c == '1' {
        1
    } else if c == '2' {
        2
    } else if c == '3' {
        3
    } else if c == '4' {
        4
    } else if c == '5' {
        5
    } else if c == '6' {
        6
    } else if c == '7' {
        7
    } else if c == '8' {
        8
    } else if c == '9' {
        9
    } else {
        -1
    }
}

/// Whether `c` is a decimal digit character.
pub open spec fn is_digit(c: char) -> bool {
    digit_val(c) >= 0
}

/// The shortest decimal rendering of `n` (no leading zeros except for 0).
pub open spec fn dec_digits(n: nat) -> Seq<char>
    decreases n,
{
    if n < 10 {
        seq![digit_char(n as int)]
    } else {
        dec_digits(n / 10) + seq![digit_char((n % 10) as int)]
    }
}

/// The decimal rendering of `n` left-padded with zeros to at least `w` chars.
pub open spec fn dec_digits_padded(n: nat, w: nat) -> Seq<char> {
    let raw = dec_digits(n);
    if raw.len() >= w {
        raw
    } else {
        Seq::new((w - raw.len()) as nat, |i: int| '0') + raw
    }
}

/// Relies on `String::push`: appends exactly the given character.
#[verifier::external_body]
pub fn push_char(s: &mut String, c: char)
    ensures
        final(s)@ == old(s)@ + seq![c],
{
    s.push(c);
}

/// The decimal digit character for a value in 0..=9, as executable code.
pub fn digit_char_exec(d: u64) -> (c: char)
    requires
        d < 10,
    ensures
        c == digit_char(d as int),
{
    match d {
        0 => '0',
        1 => '1',
        2 => '2',
        3 => '3',
        4 => '4',
        5 => '5',
        6 => '6',
        7 => '7',
        8 => '8',
        _ => '9',
    }
}

/// The numeric value of a decimal digit character, if it is one.
pub fn digit_of_char(c: char) -> (r: Option<u8>)
    ensures
        is_digit(c) ==> r == Some((digit_val(c) as u8)),
        !is_digit(c) ==> r is None,
{
    match c {
        '0' => Some(0),
        '1' => Some(1),
        '2' => Some(2),
        '3' => Some(3),
        '4' => Some(4),
        '5' => Some(5),
        '6' => Some(6),
        '7' => Some(7),
        '8' => Some(8),
        '9' => Some(9),
        _ => None,
    }
}

/// Appends the shortest decimal rendering of `n` to `s`.
pub fn append_dec(s: &mut String, n: u64)
    ensures
        final(s)@ == old(s)@ + dec_digits(n as nat),
    decreases n,
{
    if n < 10 {
        push_char(s, digit_char_exec(n));
    } else {
        append_dec(s, n / 10);
        push_char(s, digit_char_exec(n % 10));
        proof {
            assert(s@ =~= old(s)@ + dec_digits(n as nat));
        }
    }
}

/// The shortest decimal rendering of `n` as a fresh string.
pub fn u64_to_dec(n: u64) -> (s: String)
    ensures
        s@ == dec_digits(n as nat),
{
    let mut s = String::new();
    append_dec(&mut s, n);
    proof {
        assert(s@ =~= dec_digits(n as nat));
    }
    s
}

/// How many digits `dec_digits` renders, for the small widths used here.
pub proof fn lemma_dec_digits_len(n: nat)
    ensures
        dec_digits(n).len() >= 1,
        n < 10 ==> dec_digits(n).len() == 1,
        n >= 10 ==> dec_digits(n).len() >= 2,
        n < 100 ==> dec_digits(n).len() <= 2,
        n >= 100 ==> dec_digits(n).len() >= 3,
        n < 1000 ==> dec_digits(n).len() <= 3,
        n >= 1000 ==> dec_digits(n).len() >= 4,
    decreases n,
{
    if n >= 10 {
        lemma_dec_digits_len(n / 10);
    }
}

/// Appends the decimal rendering of `n` left-padded with zeros to width 2.
pub fn append_dec_pad2(s: &mut String, n: u8)
    ensures
        final(s)@ == old(s)@ + dec_digits_padded(n as nat, 2),
{
    proof {
        lemma_dec_digits_len(n as nat);
    }
    if n < 10 {
        push_char(s, '0');
    }
    append_dec(s, n as u64);
    proof {
        assert(s@ =~= old(s)@ + dec_digits_padded(n as nat, 2));
    }
}

/// Appends the decimal rendering of `n` left-padded with zeros to width 4.
pub fn append_dec_pad4(s: &mut String, n: u16)
    ensures
        final(s)@ == old(s)@ + dec_digits_padded(n as nat, 4),
{
    proof {
        lemma_dec_digits_len(n as nat);
    }
    if n < 10 {
        push_char(s, '0');
        push_char(s, '0');
        push_char(s, '0');
    } else if n < 100 {
        push_char(s, '0');
        push_char(s, '0');
    } else if n < 1000 {
        push_char(s, '0');
    }
    append_dec(s, n as u64);
    proof {
        assert(s@ =~= old(s)@ + dec_digits_padded(n as nat, 4));
    }
}

/// Whether every character of `s` is a decimal digit.
pub open spec fn all_digits(s: Seq<char>) -> bool {
    forall|i: int| 0 <= i < s.len() ==> is_digit(#[trigger] s[i])
}

/// The number a digit string denotes, most significant digit first.
pub open spec fn digits_val(s: Seq<char>) -> int
    decreases s.len(),
{
    if s.len() == 0 {
        0
    } else {
        digits_val(s.drop_last()) * 10 + digit_val(s.last())
    }
}

/// The decimal rendering of `n` is all digits and denotes `n` again.
pub proof fn lemma_digits_val_of_dec(n: nat)
    ensures
        all_digits(dec_digits(n)),
        digits_val(dec_digits(n)) == n,
    decreases n,
{
    lemma_dec_digits_len(n);
    assert(digits_val(Seq::<char>::empty()) == 0);
    if n < 10 {
        assert(dec_digits(n).drop_last() =~= Seq::empty());
        assert(dec_digits(n).last() == digit_char(n as int));
        assert(digit_val(digit_char(n as int)) == n);
    } else {
        lemma_digits_val_of_dec(n / 10);
        assert(dec_digits(n).drop_last() =~= dec_digits(n / 10));
        assert(dec_digits(n).last() == digit_char((n % 10) as int));
        assert(digit_val(digit_char((n % 10) as int)) == n % 10);
        assert forall|i: int| 0 <= i < dec_digits(n).len() implies is_digit(
            #[trigger] dec_digits(n)[i],
        ) by {
            if i < dec_digits(n / 10).len() {
                assert(dec_digits(n)[i] == dec_digits(n / 10)[i]);
            }
        };
    }
}

/// A digit string's prefixes denote no more than the whole string.
pub proof fn lemma_digits_val_prefix(s: Seq<char>, i: int)
    requires
        all_digits(s),
        0 <= i <= s.len(),
    ensures
        0 <= digits_val(s.take(i)) <= digits_val(s),
    decreases s.len() - i,
{
    if i == s.len() {
        assert(s.take(i) =~= s);
        lemma_digits_val_nonneg(s, i);
    } else {
        lemma_digits_val_prefix(s, i + 1);
        assert(s.take(i + 1).drop_last() =~= s.take(i));
        assert(s.take(i + 1).last() == s[i]);
        lemma_digits_val_nonneg(s, i);
    }
}

/// A string of digits denotes a non-negative number.
proof fn lemma_digits_val_nonneg(s: Seq<char>, i: int)
    requires
        all_digits(s),
        0 <= i <= s.len(),
    ensures
        digits_val(s.take(i)) >= 0,
    decreases i,
{
    if i > 0 {
        lemma_digits_val_nonneg(s, i - 1);
        assert(s.take(i).drop_last() =~= s.take(i - 1));
        assert(s.take(i).last() == s[i - 1]);
    }
}

/// Reads an unsigned decimal number: succeeds exactly on a non-empty string
/// of digits whose value fits.
pub fn parse_u64_dec(s: &str) -> (r: Option<u64>)
    ensures
        r is Some <==> (s@.len() > 0 && all_digits(s@) && digits_val(s@) <= u64::MAX),
        r matches Some(v) ==> v == digits_val(s@),
{
    let n = s.unicode_len();
    if n == 0 {
        return None;
    }
    let mut acc: u64 = 0;
    let mut i: usize = 0;
    while i < n
        invariant
            i <= n,
            n == s@.len(),
            all_digits(s@.take(i as int)),
            acc == digits_val(s@.take(i as int)),
        decreases n - i,
    {
        let c = s.get_char(i);
        let d: u8 = match crate::text::digit_of_char(c) {
            Some(d) => d,
            None => {
                proof {
                    assert(!is_digit(s@[i as int]));
                }
                return None;
            },
        };
        proof {
            assert(s@.take(i as int + 1).drop_last() =~= s@.take(i as int));
            assert(s@.take(i as int + 1).last() == s@[i as int]);
            assert forall|j: int| 0 <= j < i + 1 implies is_digit(
                #[trigger] s@.take(i as int + 1)[j],
            ) by {
                if j < i {
                    assert(s@.take(i as int + 1)[j] == s@.take(i as int)[j]);
                }
            };
        }
        if acc > (u64::MAX - (d as u64)) / 10 {
            proof {
                if all_digits(s@) {
                    lemma_digits_val_prefix(s@, i as int + 1);
                }
            }
            return None;
        }
        acc = acc * 10 + (d as u64);
        i = i + 1;
    }
    proof {
        assert(s@.take(n as int) =~= s@);
    }
    Some(acc)
}

/// The zero-padded two-digit rendering of `m <= 99` reads back as `m`.
pub proof fn lemma_dec2_value(m: nat)
    requires
        m <= 99,
    ensures
        dec_digits_padded(m, 2).len() == 2,
        is_digit(dec_digits_padded(m, 2)[0]),
        is_digit(dec_digits_padded(m, 2)[1]),
        digit_val(dec_digits_padded(m, 2)[0]) * 10 + digit_val(dec_digits_padded(m, 2)[1]) == m,
{
    lemma_dec_digits_len(m);
    if m < 10 {
        assert(dec_digits(m) =~= seq![digit_char(m as int)]);
        assert(dec_digits_padded(m, 2) =~= seq!['0', digit_char(m as int)]);
    } else {
        assert(dec_digits(m / 10) =~= seq![digit_char((m / 10) as int)]);
        assert(dec_digits(m) =~= seq![
            digit_char((m / 10) as int),
            digit_char((m % 10) as int),
        ]);
        assert(dec_digits_padded(m, 2) == dec_digits(m));
    }
}

/// The zero-padded four-digit rendering of `y <= 9999` reads back as `y`.
#[verifier::rlimit(60)]
pub proof fn lemma_dec4_value(y: nat)
    requires
        y <= 9999,
    ensures
        dec_digits_padded(y, 4).len() == 4,
        forall|i: int| 0 <= i < 4 ==> is_digit(#[trigger] dec_digits_padded(y, 4)[i]),
        digit_val(dec_digits_padded(y, 4)[0]) * 1000 + digit_val(dec_digits_padded(y, 4)[1]) * 100
            + digit_val(dec_digits_padded(y, 4)[2]) * 10 + digit_val(dec_digits_padded(y, 4)[3])
            == y,
{
    lemma_dec_digits_len(y);
    if y < 10 {
        assert(dec_digits(y) =~= seq![digit_char(y as int)]);
        assert(dec_digits_padded(y, 4) =~= seq!['0', '0', '0', digit_char(y as int)]);
    } else if y < 100 {
        assert(dec_digits(y / 10) =~= seq![digit_char((y / 10) as int)]);
        assert(dec_digits(y) =~= seq![
            digit_char((y / 10) as int),
            digit_char((y % 10) as int),
        ]);
        assert(dec_digits_padded(y, 4) =~= seq![
            '0',
            '0',
            digit_char((y / 10) as int),
            digit_char((y % 10) as int),
        ]);
    } else if y < 1000 {
        assert(dec_digits(y / 100) =~= seq![digit_char((y / 100) as int)]);
        assert(y / 10 / 10 == y / 100);
        assert(dec_digits(y / 10) =~= seq![
            digit_char((y / 100) as int),
            digit_char(((y / 10) % 10) as int),
        ]);
        assert(dec_digits(y) =~= seq![
            digit_char((y / 100) as int),
            digit_char(((y / 10) % 10) as int),
            digit_char((y % 10) as int),
        ]);
        assert(dec_digits_padded(y, 4) =~= seq![
            '0',
            digit_char((y / 100) as int),
            digit_char(((y / 10) % 10) as int),
            digit_char((y % 10) as int),
        ]);
    } else {
        assert(dec_digits(y / 1000) =~= seq![digit_char((y / 1000) as int)]);
        assert(y / 100 / 10 == y / 1000);
        assert(y / 10 / 10 == y / 100);
        assert(dec_digits(y / 100) =~= seq![
            digit_char((y / 1000) as int),
            digit_char(((y / 100) % 10) as int),
        ]);
        assert(dec_digits(y / 10) =~= seq![
            digit_char((y / 1000) as int),
            digit_char(((y / 100) % 10) as int),
            digit_char(((y / 10) % 10) as int),
        ]);
        assert(dec_digits(y) =~= seq![
            digit_char((y / 1000) as int),
            digit_char(((y / 100) % 10) as int),
            digit_char(((y / 10) % 10) as int),
            digit_char((y % 10) as int),
        ]);
        assert(dec_digits_padded(y, 4) == dec_digits(y));
    }
}

/// Character-wise string equality, specified against the views.
pub fn str_eq(a: &str, b: &str) -> (r: bool)
    ensures
        r == (a@ == b@),
{
    let alen = a.unicode_len();
    let blen = b.unicode_len();
    if alen != blen {
        return false;
    }
    let mut i: usize = 0;
    while i < alen
        invariant
            i <= alen,
            alen == a@.len(),
            alen == b@.len(),
            forall|j: int| 0 <= j < i ==> a@[j] == b@[j],
        decreases alen - i,
    {
        if a.get_char(i) != b.get_char(i) {
            return false;
        }
        i = i + 1;
    }
    proof {
        assert(a@ =~= b@);
    }
    true
}

} // verus!
