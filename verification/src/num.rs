//! Numeric cell text: the grammar of the integer literals accepted for
//! `Long` and `Time` cells, the grammar of the floating literals accepted
//! for `Double` cells, and the decimal rendering used when an integer
//! cell is drawn into the grid.

use vstd::prelude::*;

verus! {

use crate::text::push_char;

pub open spec fn is_digit(c: char) -> bool {
    '0' <= c && c <= '9'
}

pub open spec fn digit_val(c: char) -> nat
    recommends
        is_digit(c),
{
    (c as int - '0' as int) as nat
}

pub open spec fn all_digits(s: Seq<char>) -> bool {
    forall|i: int| 0 <= i < s.len() ==> is_digit(#[trigger] s[i])
}

/// The value of a non-empty run of decimal digits, most significant first.
pub open spec fn digits_val(s: Seq<char>) -> nat
    decreases s.len(),
{
    if s.len() == 0 {
        0
    } else {
        digits_val(s.drop_last()) * 10 + digit_val(s.last())
    }
}

/// A signed-integer textual literal: an optional sign followed by at least
/// one decimal digit and nothing else.
pub open spec fn is_int_literal(s: Seq<char>) -> bool {
    let t = if s.len() > 0 && (s[0] == '+' || s[0] == '-') {
        s.drop_first()
    } else {
        s
    };
    t.len() > 0 && all_digits(t)
}

/// The value denoted by an integer literal.
pub open spec fn int_literal_val(s: Seq<char>) -> int
    recommends
        is_int_literal(s),
{
    if s.len() > 0 && s[0] == '-' {
        -(digits_val(s.drop_first()) as int)
    } else if s.len() > 0 && s[0] == '+' {
        digits_val(s.drop_first()) as int
    } else {
        digits_val(s) as int
    }
}

proof fn lemma_digits_val_step(s: Seq<char>, a: int, p: int)
    requires
        0 <= a <= p < s.len(),
    ensures
        digits_val(s.subrange(a, p + 1)) == digits_val(s.subrange(a, p)) * 10 + digit_val(s[p]),
{
    assert(s.subrange(a, p + 1).drop_last() =~= s.subrange(a, p));
    assert(s.subrange(a, p + 1).last() == s[p]);
}

proof fn lemma_digits_val_mono(s: Seq<char>, a: int, m: int, n: int)
    requires
        0 <= a <= m <= n <= s.len(),
    ensures
        digits_val(s.subrange(a, m)) <= digits_val(s.subrange(a, n)),
    decreases n - m,
{
    if m < n {
        lemma_digits_val_mono(s, a, m, n - 1);
        lemma_digits_val_step(s, a, n - 1);
    }
}

fn digit_of(c: char) -> (r: Option<u8>)
    ensures
        r is Some <==> is_digit(c),
        r matches Some(d) ==> d < 10 && d as nat == digit_val(c),
{
    match c {
        '0' => Some(0),
        '1' => Some(1),
        '2' => Some(2),
        '3' => Some(3),
        '4' => Some(4),
        '5' => Some(5),
        '6' => Some(6),
        '7' => Some(7),
        '8' => Some(8),
        '9' => Some(9),
        _ => None,
    }
}

/// Coerce a raw text field to a signed 64-bit integer. Succeeds exactly on
/// a signed-integer literal whose value fits; anything else — an empty
/// field, stray characters, an out-of-range value — is rejected.
pub fn parse_i64(s: &str) -> (r: Option<i64>)
    ensures
        r is Some <==> is_int_literal(s@) && i64::MIN <= int_literal_val(s@) <= i64::MAX,
        r matches Some(v) ==> v as int == int_literal_val(s@),
{
    let len = s.unicode_len();
    if len == 0 {
        return None;
    }
    let c0 = s.get_char(0);
    let neg = c0 == '-';
    let start: usize = if c0 == '-' || c0 == '+' {
        1
    } else {
        0
    };
    if start == len {
        // a sign with no digits after it
        return None;
    }
    let ghost digits = s@.subrange(start as int, len as int);
    proof {
        if start == 1 {
            assert(digits =~= s@.drop_first());
        } else {
            assert(digits =~= s@);
        }
    }
    // the largest magnitude a value of the requested sign may have
    let limit: u64 = if neg {
        9223372036854775808
    } else {
        9223372036854775807
    };
    let mut acc: u64 = 0;
    let mut p: usize = start;
    while p < len
        invariant
            start <= p <= len,
            0 < len == s@.len(),
            start == 1 <==> (s@[0] == '+' || s@[0] == '-'),
            start <= 1,
            neg <==> s@[0] == '-',
            start == 1 ==> digits == s@.drop_first(),
            start == 0 ==> digits == s@,
            digits == s@.subrange(start as int, len as int),
            neg ==> limit == 9223372036854775808u64,
            !neg ==> limit == 9223372036854775807u64,
            acc <= limit,
            forall|i: int| start <= i < p ==> is_digit(#[trigger] s@[i]),
            acc as nat == digits_val(s@.subrange(start as int, p as int)),
        decreases len - p,
    {
        let c = s.get_char(p);
        let d = match digit_of(c) {
            Some(d) => d,
            None => {
                // a non-digit inside the digit run: not a literal
                proof {
                    assert(digits[p - start] == s@[p as int]);
                    if is_int_literal(s@) {
                        assert(is_digit(digits[p - start]));
                    }
                }
                return None;
            },
        };
        let next: u128 = acc as u128 * 10 + d as u128;
        proof {
            lemma_digits_val_step(s@, start as int, p as int);
        }
        if next > limit as u128 {
            // the digits seen already put the value out of range, and
            // appending further digits can only grow the magnitude
            proof {
                if is_int_literal(s@) {
                    assert(digits_val(s@.subrange(start as int, p + 1)) == acc as nat * 10
                        + digit_val(s@[p as int]));
                    lemma_digits_val_mono(s@, start as int, p + 1, len as int);
                    assert(digits_val(digits) as int >= next as int);
                    if neg {
                        assert(int_literal_val(s@) == -(digits_val(digits) as int));
                        assert(int_literal_val(s@) < i64::MIN);
                    } else {
                        assert(int_literal_val(s@) == digits_val(digits) as int);
                        assert(int_literal_val(s@) > i64::MAX);
                    }
                }
            }
            return None;
        }
        acc = next as u64;
        p = p + 1;
    }
    proof {
        assert(s@.subrange(start as int, p as int) == digits);
        assert forall|i: int| 0 <= i < digits.len() implies is_digit(#[trigger] digits[i]) by {
            assert(digits[i] == s@[start + i]);
        }
        assert(is_int_literal(s@));
        if neg {
            assert(int_literal_val(s@) == -(digits_val(digits) as int));
        } else {
            assert(int_literal_val(s@) == digits_val(digits) as int);
        }
    }
    if neg {
        if acc == 9223372036854775808 {
            Some(i64::MIN)
        } else {
            Some(-(acc as i64))
        }
    } else {
        Some(acc as i64)
    }
}

pub open spec fn spec_digit_char(d: nat) -> char {
    if d == 0 {
        '0'
    } else if d == 1 {
        '1'
    } else if d == 2 {
        '2'
    } else if d == 3 {
        '3'
    } else if d == 4 {
        '4'
    } else if d == 5 {
        '5'
    } else if d == 6 {
        '6'
    } else if d == 7 {
        '7'
    } else if d == 8 {
        '8'
    } else {
        '9'
    }
}

/// The decimal digits of `n`, most significant first, no sign and no
/// leading zero (except for `n == 0` itself).
pub open spec fn dec_digits(n: nat) -> Seq<char>
    decreases n,
{
    if n < 10 {
        seq![spec_digit_char(n)]
    } else {
        dec_digits(n / 10).push(spec_digit_char(n % 10))
    }
}

/// The decimal rendering of a signed value: a leading minus for a negative
/// one, then its magnitude's digits.
pub open spec fn i64_text(v: int) -> Seq<char> {
    if v < 0 {
        seq!['-'] + dec_digits((-v) as nat)
    } else {
        dec_digits(v as nat)
    }
}

fn digit_char(d: u8) -> (c: char)
    requires
        d < 10,
    ensures
        c == spec_digit_char(d as nat),
{
    match d {
        0 => '0',
        1 => '1',
        2 => '2',
        3 => '3',
        4 => '4',
        5 => '5',
        6 => '6',
        7 => '7',
        8 => '8',
        _ => '9',
    }
}

/// Append the decimal digits of `n` to `out`.
pub fn push_decimal(out: &mut String, n: u64)
    ensures
        final(out)@ == old(out)@ + dec_digits(n as nat),
    decreases n,
{
    if n >= 10 {
        push_decimal(out, n / 10);
    }
    let ghost mid = out@;
    push_char(out, digit_char((n % 10) as u8));
    proof {
        assert(out@ =~= mid + seq![spec_digit_char((n % 10) as nat)]);
        if n < 10 {
            assert(out@ =~= old(out)@ + dec_digits(n as nat));
        } else {
            assert(out@ =~= old(out)@ + dec_digits(n as nat));
        }
    }
}

/// A lower-cased ASCII letter; anything else is left alone.
pub open spec fn lower_char(c: char) -> char {
    if 'A' <= c && c <= 'Z' {
        ((c as int) + 32) as char
    } else {
        c
    }
}

/// The first position at or after `i` that does not hold a decimal digit.
pub open spec fn digits_end(s: Seq<char>, i: int) -> int
    recommends
        0 <= i <= s.len(),
    decreases s.len() - i when 0 <= i <= s.len()
{
    if i < s.len() && is_digit(s[i]) {
        digits_end(s, i + 1)
    } else {
        i
    }
}

pub proof fn lemma_digits_end(s: Seq<char>, i: int)
    requires
        0 <= i <= s.len(),
    ensures
        i <= digits_end(s, i) <= s.len(),
        forall|k: int| i <= k < digits_end(s, i) ==> is_digit(#[trigger] s[k]),
        digits_end(s, i) == s.len() || !is_digit(s[digits_end(s, i)]),
    decreases s.len() - i,
{
    if i < s.len() && is_digit(s[i]) {
        lemma_digits_end(s, i + 1);
    }
}

/// The rest of `s` from `st` on spells `w`, ASCII case-insensitively.
pub open spec fn keyword_at(s: Seq<char>, st: int, w: Seq<char>) -> bool {
    s.len() == st + w.len() && forall|k: int|
        0 <= k < w.len() ==> lower_char(s[st + k]) == #[trigger] w[k]
}

/// From `k` to the end: an optional sign, then one or more digits — the
/// tail of an exponent.
pub open spec fn exp_tail_at(s: Seq<char>, k: int) -> bool {
    let k2 = if k < s.len() && (s[k] == '+' || s[k] == '-') {
        k + 1
    } else {
        k
    };
    k2 < s.len() && digits_end(s, k2) == s.len()
}

/// From `st` to the end: a mantissa — digits, `digits '.'`,
/// `digits '.' digits` or `'.' digits` — then an optional exponent
/// (`e` or `E`, an optional sign, one or more digits).
pub open spec fn number_at(s: Seq<char>, st: int) -> bool
    recommends
        0 <= st <= s.len(),
{
    let a = digits_end(s, st);
    let dot = a < s.len() && s[a] == '.';
    let j = if dot {
        digits_end(s, a + 1)
    } else {
        a
    };
    let has_digits = a > st || (dot && j > a + 1);
    has_digits && (j == s.len() || ((s[j] == 'e' || s[j] == 'E') && exp_tail_at(s, j + 1)))
}

/// Where the mantissa of a floating literal starts: right after a leading
/// sign, if any.
pub open spec fn float_sign_end(s: Seq<char>) -> int {
    if s.len() > 0 && (s[0] == '+' || s[0] == '-') {
        1
    } else {
        0
    }
}

/// A standard floating textual literal: an optional sign, then `inf`,
/// `infinity` or `nan` in any letter case, or a decimal number with an
/// optional fraction and exponent.
pub open spec fn is_float_literal(s: Seq<char>) -> bool {
    let st = float_sign_end(s);
    keyword_at(s, st, seq!['i', 'n', 'f']) || keyword_at(
        s,
        st,
        seq!['i', 'n', 'f', 'i', 'n', 'i', 't', 'y'],
    ) || keyword_at(s, st, seq!['n', 'a', 'n']) || number_at(s, st)
}

fn is_digit_char(c: char) -> (b: bool)
    ensures
        b == is_digit(c),
{
    '0' <= c && c <= '9'
}

fn lower_char_of(c: char) -> (r: char)
    ensures
        r == lower_char(c),
{
    match c {
        'A' => 'a',
        'B' => 'b',
        'C' => 'c',
        'D' => 'd',
        'E' => 'e',
        'F' => 'f',
        'G' => 'g',
        'H' => 'h',
        'I' => 'i',
        'J' => 'j',
        'K' => 'k',
        'L' => 'l',
        'M' => 'm',
        'N' => 'n',
        'O' => 'o',
        'P' => 'p',
        'Q' => 'q',
        'R' => 'r',
        'S' => 's',
        'T' => 't',
        'U' => 'u',
        'V' => 'v',
        'W' => 'w',
        'X' => 'x',
        'Y' => 'y',
        'Z' => 'z',
        _ => c,
    }
}

fn scan_digits(s: &str, from: usize) -> (e: usize)
    requires
        from as int <= s@.len(),
    ensures
        e as int == digits_end(s@, from as int),
        from <= e,
        e as int <= s@.len(),
    decreases s@.len() - from as int,
{
    let len = s.unicode_len();
    if from < len && is_digit_char(s.get_char(from)) {
        scan_digits(s, from + 1)
    } else {
        from
    }
}

fn check_keyword(s: &str, st: usize, w: &str) -> (r: bool)
    requires
        st as int <= s@.len(),
    ensures
        r == keyword_at(s@, st as int, w@),
{
    let slen = s.unicode_len();
    let wlen = w.unicode_len();
    if slen - st != wlen {
        return false;
    }
    let mut k: usize = 0;
    while k < wlen
        invariant
            0 <= k <= wlen,
            st as int + wlen as int == slen as int == s@.len(),
            wlen == w@.len(),
            forall|m: int| 0 <= m < k ==> lower_char(s@[st + m]) == #[trigger] w@[m],
        decreases wlen - k,
    {
        if lower_char_of(s.get_char(st + k)) != w.get_char(k) {
            return false;
        }
        k = k + 1;
    }
    true
}

/// Whether a raw text field is accepted as a floating literal; the
/// accepted text itself is what a `Double` cell carries and renders.
pub fn check_float_literal(s: &str) -> (r: bool)
    ensures
        r == is_float_literal(s@),
{
    let len = s.unicode_len();
    let st: usize = if len > 0 && (s.get_char(0) == '+' || s.get_char(0) == '-') {
        1
    } else {
        0
    };
    proof {
        reveal_strlit("inf");
        reveal_strlit("infinity");
        reveal_strlit("nan");
        assert("inf"@ =~= seq!['i', 'n', 'f']);
        assert("infinity"@ =~= seq!['i', 'n', 'f', 'i', 'n', 'i', 't', 'y']);
        assert("nan"@ =~= seq!['n', 'a', 'n']);
    }
    if check_keyword(s, st, "inf") || check_keyword(s, st, "infinity") || check_keyword(
        s,
        st,
        "nan",
    ) {
        return true;
    }
    let a = scan_digits(s, st);
    let dot = a < len && s.get_char(a) == '.';
    let j = if dot {
        scan_digits(s, a + 1)
    } else {
        a
    };
    let has_digits = a > st || (dot && j > a + 1);
    if !has_digits {
        return false;
    }
    if j == len {
        return true;
    }
    let cj = s.get_char(j);
    if !(cj == 'e' || cj == 'E') {
        return false;
    }
    let k = j + 1;
    let k2: usize = if k < len && (s.get_char(k) == '+' || s.get_char(k) == '-') {
        k + 1
    } else {
        k
    };
    if k2 >= len {
        return false;
    }
    let e2 = scan_digits(s, k2);
    e2 == len
}

/// The decimal rendering of `v`.
pub fn i64_string(v: i64) -> (r: String)
    ensures
        r@ == i64_text(v as int),
{
    let mut r = String::new();
    let m: u64 = if v < 0 {
        push_char(&mut r, '-');
        ((-(v + 1)) as u64) + 1
    } else {
        v as u64
    };
    proof {
        if v < 0 {
            assert(r@ =~= seq!['-']);
        }
    }
    push_decimal(&mut r, m);
    proof {
        if v < 0 {
            assert(r@ =~= i64_text(v as int));
        }
    }
    r
}

} // verus!
