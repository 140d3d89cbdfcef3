//! Small helpers on character sequences shared by the parsers.

use vstd::prelude::*;
use vstd::string::{StrSliceExecFns, StringExecFns};

verus! {

/// Whether two strings hold the same characters.
pub fn str_equals(s: &str, t: &str) -> (r: bool)
    ensures
        r == (s@ == t@),
{
    let n = s.unicode_len();
    let m = t.unicode_len();
    if n != m {
        return false;
    }
    let mut i: usize = 0;
    while i < n
        invariant
            n == s@.len(),
            m == t@.len(),
            n == m,
            i <= n,
            s@.subrange(0, i as int) == t@.subrange(0, i as int),
        decreases n - i,
    {
        if s.get_char(i) != t.get_char(i) {
            return false;
        }
        assert(s@.subrange(0, i + 1) == s@.subrange(0, i as int).push(s@[i as int]));
        assert(t@.subrange(0, i + 1) == t@.subrange(0, i as int).push(t@[i as int]));
        i = i + 1;
    }
    assert(s@ == s@.subrange(0, n as int));
    assert(t@ == t@.subrange(0, n as int));
    true
}


/// Whether `c` is an ASCII decimal digit.
pub open spec fn is_digit(c: char) -> bool {
    '0' <= c && c <= '9'
}

/// The value of a decimal digit.
pub open spec fn digit_value(c: char) -> int {
    c as int - '0' as int
}

/// The character of a decimal digit value in `0..10`.
pub open spec fn digit_char(v: int) -> char {
    (v + '0' as int) as char
}

/// Whether `s[i..i + n]` are all digits.
pub open spec fn digits_at(s: Seq<char>, i: int, n: int) -> bool {
    forall|j: int| i <= j < i + n ==> #[trigger] is_digit(s[j])
}

/// The value of the two digits `s[i]`, `s[i + 1]`.
pub open spec fn two_digit_value(s: Seq<char>, i: int) -> int {
    10 * digit_value(s[i]) + digit_value(s[i + 1])
}

/// The two-digit, zero-padded text of `v` in `0..100`.
pub open spec fn two_digit_text(v: int) -> Seq<char> {
    seq![digit_char(v / 10), digit_char(v % 10)]
}

/// The one-character string of a digit value.
pub fn digit_str(v: u8) -> (r: &'static str)
    requires
        v < 10,
    ensures
        r@ == seq![digit_char(v as int)],
{
    proof {
        reveal_strlit("0");
        reveal_strlit("1");
        reveal_strlit("2");
        reveal_strlit("3");
        reveal_strlit("4");
        reveal_strlit("5");
        reveal_strlit("6");
        reveal_strlit("7");
        reveal_strlit("8");
        reveal_strlit("9");
    }
    match v {
        0 => "0",
        1 => "1",
        2 => "2",
        3 => "3",
        4 => "4",
        5 => "5",
        6 => "6",
        7 => "7",
        8 => "8",
        _ => "9",
    }
}

/// Appends the two-digit, zero-padded text of `v`.
pub fn push_two_digits(out: &mut String, v: u8)
    requires
        v < 100,
    ensures
        final(out)@ == old(out)@ + two_digit_text(v as int),
{
    out.append(digit_str(v / 10));
    out.append(digit_str(v % 10));
    assert(final(out)@ =~= old(out)@ + two_digit_text(v as int));
}

/// Reads the digit `s[i]`, if it is one.
pub fn digit_at(s: &str, i: usize) -> (r: Option<u8>)
    requires
        i < s@.len(),
    ensures
        r is Some == is_digit(s@[i as int]),
        r matches Some(v) ==> v == digit_value(s@[i as int]) && v < 10,
{
    let c = s.get_char(i);
    if '0' <= c && c <= '9' {
        Some((c as u32 - '0' as u32) as u8)
    } else {
        None
    }
}

/// Reads the two digits at `s[i]`, `s[i + 1]`, if both are digits.
pub fn two_digits_at(s: &str, i: usize) -> (r: Option<u8>)
    requires
        i + 1 < s@.len() <= usize::MAX,
    ensures
        r is Some == digits_at(s@, i as int, 2),
        r matches Some(v) ==> v == two_digit_value(s@, i as int) && v < 100,
{
    let a = digit_at(s, i);
    let b = digit_at(s, i + 1);
    match (a, b) {
        (Some(x), Some(y)) => Some(10 * x + y),
        _ => {
            assert(!is_digit(s@[i as int]) || !is_digit(s@[i + 1]));
            None
        },
    }
}


/// Whether every character of `s` is a digit.
pub open spec fn all_digits(s: Seq<char>) -> bool {
    forall|i: int| 0 <= i < s.len() ==> #[trigger] is_digit(s[i])
}

/// The value of a string of decimal digits.
pub open spec fn digits_value(s: Seq<char>) -> int
    decreases s.len(),
{
    if s.len() == 0 {
        0
    } else {
        digits_value(s.drop_last()) * 10 + digit_value(s.last())
    }
}

/// Ten to the power `n`.
pub open spec fn pow10(n: nat) -> int
    decreases n,
{
    if n == 0 {
        1
    } else {
        10 * pow10((n - 1) as nat)
    }
}

/// The text `I` or `I.F` (with one to four digits `I` and one to six digits
/// `F`) read as a count of millionths, where `s[p]` is the dot.
pub open spec fn decimal_with_dot(s: Seq<char>, p: int) -> Option<int> {
    let i = s.take(p);
    let f = s.skip(p + 1);
    if 1 <= p <= 4 && p < s.len() && s[p] == '.' && all_digits(i) && 1 <= f.len() <= 6 && all_digits(f) {
        Some(digits_value(i) * 1_000_000 + digits_value(f) * pow10((6 - f.len()) as nat))
    } else {
        None
    }
}

/// The text `I` or `I.F` (with one to four digits `I` and one to six digits
/// `F`) read as a count of millionths.
pub open spec fn decimal_from_text(s: Seq<char>) -> Option<int> {
    if 1 <= s.len() <= 4 && all_digits(s) {
        Some(digits_value(s) * 1_000_000)
    } else if decimal_with_dot(s, 1) is Some {
        decimal_with_dot(s, 1)
    } else if decimal_with_dot(s, 2) is Some {
        decimal_with_dot(s, 2)
    } else if decimal_with_dot(s, 3) is Some {
        decimal_with_dot(s, 3)
    } else {
        decimal_with_dot(s, 4)
    }
}

/// The digits of `n` (below ten thousand) without leading zeros.
pub open spec fn small_int_text(n: int) -> Seq<char> {
    if n >= 1000 {
        seq![digit_char(n / 1000), digit_char(n / 100 % 10), digit_char(n / 10 % 10), digit_char(n % 10)]
    } else if n >= 100 {
        seq![digit_char(n / 100), digit_char(n / 10 % 10), digit_char(n % 10)]
    } else if n >= 10 {
        seq![digit_char(n / 10), digit_char(n % 10)]
    } else {
        seq![digit_char(n)]
    }
}

/// The six digits of `n` (below a million), zero-padded.
pub open spec fn six_digit_text(n: int) -> Seq<char> {
    two_digit_text(n / 10000) + two_digit_text(n / 100 % 100) + two_digit_text(n % 100)
}

/// A count of millionths written `I.FFFFFF`.
pub open spec fn decimal_text(k: int) -> Seq<char> {
    small_int_text(k / 1_000_000) + seq!['.'] + six_digit_text(k % 1_000_000)
}

proof fn lemma_small_int_text(n: int)
    requires
        0 <= n < 10000,
    ensures
        all_digits(small_int_text(n)),
        digits_value(small_int_text(n)) == n,
        1 <= small_int_text(n).len() <= 4,
{
    let t = small_int_text(n);
    reveal_with_fuel(digits_value, 5);
    if n >= 1000 {
        assert(t.drop_last().drop_last().drop_last() =~= seq![digit_char(n / 1000)]);
        assert(t.drop_last().drop_last() =~= seq![digit_char(n / 1000), digit_char(n / 100 % 10)]);
        assert(t.drop_last() =~= seq![digit_char(n / 1000), digit_char(n / 100 % 10), digit_char(n / 10 % 10)]);
        assert(seq![digit_char(n / 1000)].drop_last() =~= Seq::<char>::empty());
    } else if n >= 100 {
        assert(t.drop_last().drop_last() =~= seq![digit_char(n / 100)]);
        assert(t.drop_last() =~= seq![digit_char(n / 100), digit_char(n / 10 % 10)]);
        assert(seq![digit_char(n / 100)].drop_last() =~= Seq::<char>::empty());
    } else if n >= 10 {
        assert(t.drop_last() =~= seq![digit_char(n / 10)]);
        assert(seq![digit_char(n / 10)].drop_last() =~= Seq::<char>::empty());
    } else {
        assert(t.drop_last() =~= Seq::<char>::empty());
    }
}

proof fn lemma_six_digit_text(n: int)
    requires
        0 <= n < 1_000_000,
    ensures
        all_digits(six_digit_text(n)),
        digits_value(six_digit_text(n)) == n,
        six_digit_text(n).len() == 6,
{
    let t = six_digit_text(n);
    reveal_with_fuel(digits_value, 7);
    assert(t =~= seq![
        digit_char(n / 10000 / 10), digit_char(n / 10000 % 10),
        digit_char(n / 100 % 100 / 10), digit_char(n / 100 % 100 % 10),
        digit_char(n % 100 / 10), digit_char(n % 100 % 10)
    ]);
    assert(t.drop_last().drop_last().drop_last().drop_last().drop_last().drop_last() =~= Seq::<char>::empty());
}

/// Writing a count of millionths and reading it back gives the same count.
pub proof fn lemma_decimal_round_trip(k: int)
    requires
        0 <= k < 10_000_000_000,
    ensures
        decimal_from_text(decimal_text(k)) == Some(k),
{
    let i = small_int_text(k / 1_000_000);
    let f = six_digit_text(k % 1_000_000);
    let s = decimal_text(k);
    lemma_small_int_text(k / 1_000_000);
    lemma_six_digit_text(k % 1_000_000);
    let p = i.len() as int;
    assert(s.take(p) =~= i);
    assert(s.skip(p + 1) =~= f);
    assert(s[p] == '.');
    assert(!is_digit(s[p]));
    assert(!all_digits(s));
    assert(pow10(0) == 1);
    assert(decimal_with_dot(s, p) == Some(k));
    assert forall|q: int| 1 <= q <= 4 && q != p implies decimal_with_dot(s, q) is None by {
        if q < p {
            assert(is_digit(s.take(p)[q]));
        } else if q < s.len() {
            assert(s.skip(p + 1)[q - p - 1] == s[q]);
        }
    }
}


/// Reads the digits `s[from..to]` (at most six of them) as a number.
fn digits_in(s: &str, from: usize, to: usize) -> (r: Option<u64>)
    requires
        from <= to <= s@.len() <= usize::MAX,
        to - from <= 6,
    ensures
        r is Some == all_digits(s@.subrange(from as int, to as int)),
        r matches Some(v) ==> v == digits_value(s@.subrange(from as int, to as int)) && v < 1_000_000,
{
    let mut v: u64 = 0;
    let mut i = from;
    while i < to
        invariant
            from <= i <= to <= s@.len() <= usize::MAX,
            to - from <= 6,
            all_digits(s@.subrange(from as int, i as int)),
            v == digits_value(s@.subrange(from as int, i as int)),
            v < pow10((i - from) as nat),
        decreases to - i,
    {
        proof {
            reveal_with_fuel(pow10, 7);
        }
        match digit_at(s, i) {
            Some(d) => {
                let ghost pre = s@.subrange(from as int, i as int);
                assert(s@.subrange(from as int, i + 1).drop_last() == pre);
                assert(pow10((i + 1 - from) as nat) == 10 * pow10((i - from) as nat));
                v = v * 10 + d as u64;
                i = i + 1;
            },
            None => {
                assert(!is_digit(s@.subrange(from as int, to as int)[i - from]));
                return None;
            },
        }
    }
    proof {
        reveal_with_fuel(pow10, 7);
    }
    Some(v)
}

/// Ten to the power `n`, for `n` up to six.
fn pow10_of(n: usize) -> (r: u64)
    requires
        n <= 6,
    ensures
        r == pow10(n as nat),
        r <= 1_000_000,
{
    proof {
        reveal_with_fuel(pow10, 7);
    }
    match n {
        0 => 1,
        1 => 10,
        2 => 100,
        3 => 1000,
        4 => 10_000,
        5 => 100_000,
        _ => 1_000_000,
    }
}

fn decimal_with_dot_of(s: &str, n: usize, p: usize) -> (r: Option<u64>)
    requires
        n == s@.len(),
        1 <= p <= 4,
    ensures
        r is Some == decimal_with_dot(s@, p as int) is Some,
        r matches Some(v) ==> v == decimal_with_dot(s@, p as int)->0,
{
    if p >= n || n - p - 1 < 1 || n - p - 1 > 6 {
        return None;
    }
    if s.get_char(p) != '.' {
        return None;
    }
    assert(s@.take(p as int) == s@.subrange(0, p as int));
    assert(s@.skip(p + 1) == s@.subrange(p + 1, n as int));
    let i = digits_in(s, 0, p);
    let f = digits_in(s, p + 1, n);
    match (i, f) {
        (Some(i), Some(f)) => {
            let m = pow10_of(6 - (n - p - 1));
            assert(f * m <= 1_000_000 * 1_000_000) by (nonlinear_arith)
                requires f < 1_000_000, m <= 1_000_000;
            assert(i * 1_000_000 <= 1_000_000 * 1_000_000) by (nonlinear_arith)
                requires i < 1_000_000;
            Some(i * 1_000_000 + f * m)
        },
        _ => None,
    }
}

/// Reads a decimal `I` or `I.F` as a count of millionths.
pub fn parse_decimal(s: &str) -> (r: Option<u64>)
    ensures
        r is Some == decimal_from_text(s@) is Some,
        r matches Some(v) ==> v == decimal_from_text(s@)->0,
{
    let n = s.unicode_len();
    if 1 <= n && n <= 4 {
        match digits_in(s, 0, n) {
            Some(v) => {
                assert(s@.subrange(0, n as int) == s@);
                return Some(v * 1_000_000);
            },
            None => {
                assert(s@.subrange(0, n as int) == s@);
            },
        }
    }
    let mut p: usize = 1;
    while p <= 4
        invariant
            n == s@.len(),
            1 <= p <= 5,
            !(1 <= s@.len() <= 4 && all_digits(s@)),
            forall|q: int| 1 <= q < p ==> decimal_with_dot(s@, q) is None,
        decreases 5 - p,
    {
        match decimal_with_dot_of(s, n, p) {
            Some(v) => {
                return Some(v);
            },
            None => {},
        }
        p = p + 1;
    }
    None
}

/// Writes a count of millionths as `I.FFFFFF`.
pub fn format_decimal(k: u32) -> (r: String)
    ensures
        r@ == decimal_text(k as int),
{
    let n = k / 1_000_000;
    let f = k % 1_000_000;
    let mut out = String::new();
    if n >= 1000 {
        out.append(digit_str((n / 1000) as u8));
        out.append(digit_str((n / 100 % 10) as u8));
        out.append(digit_str((n / 10 % 10) as u8));
        out.append(digit_str((n % 10) as u8));
    } else if n >= 100 {
        out.append(digit_str((n / 100) as u8));
        out.append(digit_str((n / 10 % 10) as u8));
        out.append(digit_str((n % 10) as u8));
    } else if n >= 10 {
        out.append(digit_str((n / 10) as u8));
        out.append(digit_str((n % 10) as u8));
    } else {
        out.append(digit_str(n as u8));
    }
    assert(out@ =~= small_int_text(n as int));
    out.append(".");
    proof {
        reveal_strlit(".");
    }
    push_two_digits(&mut out, (f / 10000) as u8);
    push_two_digits(&mut out, (f / 100 % 100) as u8);
    push_two_digits(&mut out, (f % 100) as u8);
    assert(out@ =~= decimal_text(k as int));
    out
}

} // verus!
