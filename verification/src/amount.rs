//! Fixed-point decimal amounts.
//!
//! An amount is an integer count of ten-thousandths of a currency unit, so
//! four decimal digits are carried exactly. This module renders amounts as
//! decimal text with exactly four fractional digits and parses decimal
//! text — an integer part without leading zeros, optionally a point and
//! one to four fractional digits — back into units.

use vstd::prelude::*;

verus! {

/// Whether `c` is a decimal digit.
pub open spec fn is_digit(c: char) -> bool {
    '0' <= c && c <= '9'
}

/// The numeric value of a decimal digit character.
pub open spec fn digit_val(c: char) -> int {
    c as int - '0' as int
}

/// The decimal digit character for a value below ten.
pub open spec fn digit_char(d: int) -> char {
    if d == 0 {
        '0'
    } else if d == 1 {
        '1'
    } else if d == 2 {
        '2'
    } else if d == 3 {
        '3'
    } else if d == 4 {
        '4'
    } else if d == 5 {
        '5'
    } else if d == 6 {
        '6'
    } else if d == 7 {
        '7'
    } else if d == 8 {
        '8'
    } else {
        '9'
    }
}

/// Whether every character of `s` is a decimal digit.
pub open spec fn all_digits(s: Seq<char>) -> bool {
    forall|i: int| 0 <= i < s.len() ==> is_digit(#[trigger] s[i])
}

/// The number a sequence of decimal digits denotes, most significant first.
pub open spec fn digits_val(s: Seq<char>) -> int
    decreases s.len(),
{
    if s.len() == 0 {
        0
    } else {
        digits_val(s.drop_last()) * 10 + digit_val(s.last())
    }
}

/// Ten to the `n`th power.
pub open spec fn pow10(n: nat) -> int
    decreases n,
{
    if n == 0 {
        1
    } else {
        10 * pow10((n - 1) as nat)
    }
}

/// The decimal digits of `n`, without leading zeros ("0" for zero).
pub open spec fn dec_digits(n: nat) -> Seq<char>
    decreases n,
{
    if n < 10 {
        seq![digit_char(n as int)]
    } else {
        dec_digits(n / 10) + seq![digit_char((n % 10) as int)]
    }
}

/// The four fractional digits of `f`, zero-padded; `f` is below ten thousand.
pub open spec fn frac4(f: nat) -> Seq<char> {
    seq![
        digit_char((f / 1000) as int % 10),
        digit_char((f / 100) as int % 10),
        digit_char((f / 10) as int % 10),
        digit_char(f as int % 10),
    ]
}

/// `u` ten-thousandths rendered as decimal text: the whole units, a point,
/// and exactly four fractional digits.
pub open spec fn amount_text(u: u64) -> Seq<char> {
    dec_digits((u / 10000) as nat) + seq!['.'] + frac4((u % 10000) as nat)
}

/// "true" or "false".
pub open spec fn bool_text(b: bool) -> Seq<char> {
    if b {
        seq!['t', 'r', 'u', 'e']
    } else {
        seq!['f', 'a', 'l', 's', 'e']
    }
}

/// The decimal digit character of `d`, as a string slice.
fn digit_str(d: u64) -> (r: &'static str)
    requires
        d < 10,
    ensures
        r@ == seq![digit_char(d as int)],
{
    proof {
        reveal_strlit("0");
        reveal_strlit("1");
        reveal_strlit("2");
        reveal_strlit("3");
        reveal_strlit("4");
        reveal_strlit("5");
        reveal_strlit("6");
        reveal_strlit("7");
        reveal_strlit("8");
        reveal_strlit("9");
    }
    if d == 0 {
        "0"
    } else if d == 1 {
        "1"
    } else if d == 2 {
        "2"
    } else if d == 3 {
        "3"
    } else if d == 4 {
        "4"
    } else if d == 5 {
        "5"
    } else if d == 6 {
        "6"
    } else if d == 7 {
        "7"
    } else if d == 8 {
        "8"
    } else {
        "9"
    }
}

/// Appends the decimal digits of `n` to `out`.
pub(crate) fn push_dec(out: &mut String, n: u64)
    ensures
        final(out)@ == old(out)@ + dec_digits(n as nat),
    decreases n,
{
    if n >= 10 {
        push_dec(out, n / 10);
    }
    let ghost mid = out@;
    out.append(digit_str(n % 10));
    proof {
        if n < 10 {
            assert(out@ =~= old(out)@ + dec_digits(n as nat));
        } else {
            assert(mid == old(out)@ + dec_digits((n / 10) as nat));
            assert(out@ =~= old(out)@ + dec_digits(n as nat));
        }
    }
}

/// "true" or "false", as a string slice.
pub(crate) fn bool_str(b: bool) -> (r: &'static str)
    ensures
        r@ == bool_text(b),
{
    proof {
        reveal_strlit("true");
        reveal_strlit("false");
    }
    if b {
        "true"
    } else {
        "false"
    }
}

/// Renders `u` ten-thousandths as decimal text with exactly four
/// fractional digits: `10000` becomes `1.0000`, `12345` becomes `1.2345`.
pub fn format_amount(u: u64) -> (s: String)
    ensures
        s@ == amount_text(u),
{
    proof {
        reveal_strlit(".");
    }
    let mut s = String::new();
    push_dec(&mut s, u / 10000);
    s.append(".");
    let f = u % 10000;
    s.append(digit_str(f / 1000));
    s.append(digit_str((f / 100) % 10));
    s.append(digit_str((f / 10) % 10));
    s.append(digit_str(f % 10));
    proof {
        assert(s@ =~= amount_text(u));
    }
    s
}

/// Index of the first decimal point in `s`, or `s.len()` when there is none.
pub open spec fn first_dot(s: Seq<char>) -> int
    decreases s.len(),
{
    if s.len() == 0 {
        0
    } else if s[0] == '.' {
        0
    } else {
        1 + first_dot(s.skip(1))
    }
}

/// A well-formed integer part: nonempty, all digits, and no leading zero
/// unless it is exactly "0".
pub open spec fn int_part_ok(p: Seq<char>) -> bool {
    p.len() > 0 && all_digits(p) && (p.len() == 1 || p[0] != '0')
}

/// A well-formed fractional part: one to four digits.
pub open spec fn frac_part_ok(f: Seq<char>) -> bool {
    1 <= f.len() <= 4 && all_digits(f)
}

/// `v` as units when it fits in `u64`, `None` otherwise.
pub open spec fn representable(v: int) -> Option<u64> {
    if 0 <= v <= u64::MAX {
        Some(v as u64)
    } else {
        None
    }
}

/// The units that decimal text denotes: the integer part times ten
/// thousand, plus the fractional digits scaled to ten-thousandths. `None`
/// for malformed text and for values past the largest representable amount.
pub open spec fn amount_units(s: Seq<char>) -> Option<u64> {
    let i = first_dot(s);
    if !int_part_ok(s.take(i)) {
        None
    } else if i == s.len() {
        representable(digits_val(s.take(i)) * 10000)
    } else if !frac_part_ok(s.skip(i + 1)) {
        None
    } else {
        representable(
            digits_val(s.take(i)) * 10000 + digits_val(s.skip(i + 1)) * pow10(
                (4 - s.skip(i + 1).len()) as nat,
            ),
        )
    }
}

/// The position right before the first `'.'`, with none earlier, is where
/// `first_dot` points.
proof fn lemma_first_dot_at(s: Seq<char>, j: int)
    requires
        0 <= j <= s.len(),
        forall|k: int| 0 <= k < j ==> s[k] != '.',
        j < s.len() ==> s[j] == '.',
    ensures
        first_dot(s) == j,
    decreases s.len(),
{
    if s.len() == 0 {
    } else if s[0] == '.' {
        assert(j == 0);
    } else {
        assert(j >= 1);
        lemma_first_dot_at(s.skip(1), j - 1);
    }
}

/// Ten to any power is positive.
proof fn lemma_pow10_pos(n: nat)
    ensures
        pow10(n) >= 1,
    decreases n,
{
    if n > 0 {
        lemma_pow10_pos((n - 1) as nat);
    }
}

/// Powers of ten do not decrease.
proof fn lemma_pow10_mono(m: nat, n: nat)
    requires
        m <= n,
    ensures
        pow10(m) <= pow10(n),
    decreases n,
{
    if m < n {
        lemma_pow10_mono(m, (n - 1) as nat);
        lemma_pow10_pos((n - 1) as nat);
    }
}

/// The value of a digit string stays below ten to its length.
proof fn lemma_digits_val_bounds(p: Seq<char>)
    requires
        all_digits(p),
    ensures
        0 <= digits_val(p) < pow10(p.len() as nat),
    decreases p.len(),
{
    if p.len() > 0 {
        assert(all_digits(p.drop_last()));
        lemma_digits_val_bounds(p.drop_last());
    }
}

/// Without a leading zero, a digit string's value reaches ten to one less
/// than its length.
proof fn lemma_digits_val_lower(p: Seq<char>)
    requires
        all_digits(p),
        p.len() >= 1,
        p[0] != '0',
    ensures
        digits_val(p) >= pow10((p.len() - 1) as nat),
    decreases p.len(),
{
    if p.len() == 1 {
        assert(digits_val(p.drop_last()) == 0);
        assert(is_digit(p[0]));
        assert(pow10(0) == 1);
    } else {
        assert(all_digits(p.drop_last()));
        lemma_digits_val_lower(p.drop_last());
    }
}

/// The first seventeen powers of ten, as numbers.
proof fn lemma_pow10_concrete()
    ensures
        pow10(4) == 10000,
        pow10(16) == 0x2386f26fc10000,
{
    assert(pow10(0) == 1);
    assert(pow10(1) == 10);
    assert(pow10(2) == 100);
    assert(pow10(3) == 1000);
    assert(pow10(4) == 10000);
    assert(pow10(5) == 100000);
    assert(pow10(6) == 1000000);
    assert(pow10(7) == 10000000);
    assert(pow10(8) == 100000000);
    assert(pow10(9) == 1000000000);
    assert(pow10(10) == 10000000000);
    assert(pow10(11) == 100000000000);
    assert(pow10(12) == 1000000000000);
    assert(pow10(13) == 10000000000000);
    assert(pow10(14) == 100000000000000);
    assert(pow10(15) == 1000000000000000);
    assert(pow10(16) == 10000000000000000);
}

/// The numeric value of a decimal digit character, executable.
fn digit_of(c: char) -> (r: Option<u64>)
    ensures
        is_digit(c) ==> r == Some((digit_val(c)) as u64),
        !is_digit(c) ==> r is None,
{
    let u = c as u32;
    if 48 <= u && u <= 57 {
        Some((u - 48) as u64)
    } else {
        None
    }
}

/// Parses decimal text into ten-thousandths of a unit: an integer part
/// without leading zeros, optionally a point and one to four fractional
/// digits. `"1.0"` gives `Some(10000)`; malformed text and values past the
/// largest representable amount give `None`.
pub fn parse_amount(s: &str) -> (r: Option<u64>)
    ensures
        r == amount_units(s@),
{
    let n = s.unicode_len();
    let mut dot: usize = 0;
    while dot < n && s.get_char(dot) != '.'
        invariant
            0 <= dot <= n,
            n == s@.len(),
            forall|k: int| 0 <= k < dot ==> s@[k] != '.',
        decreases n - dot,
    {
        dot = dot + 1;
    }
    proof {
        lemma_first_dot_at(s@, dot as int);
        lemma_pow10_concrete();
    }
    if dot == 0 {
        return None;
    }
    if dot >= 2 && s.get_char(0) == '0' {
        return None;
    }
    if dot > 16 {
        proof {
            let ip = s@.take(dot as int);
            if int_part_ok(ip) {
                lemma_digits_val_lower(ip);
                lemma_pow10_mono(16, (ip.len() - 1) as nat);
                if (dot as int) < s@.len() && frac_part_ok(s@.skip(dot as int + 1)) {
                    let f = s@.skip(dot as int + 1);
                    lemma_digits_val_bounds(f);
                    lemma_pow10_pos((4 - f.len()) as nat);
                }
            }
        }
        return None;
    }
    let mut acc: u128 = 0;
    let mut k: usize = 0;
    while k < dot
        invariant
            0 <= k <= dot,
            1 <= dot <= 16,
            dot <= n,
            n == s@.len(),
            first_dot(s@) == dot,
            dot >= 2 ==> s@[0] != '0',
            all_digits(s@.take(k as int)),
            acc == digits_val(s@.take(k as int)),
            acc < pow10(k as nat),
            pow10(16) == 0x2386f26fc10000,
        decreases dot - k,
    {
        match digit_of(s.get_char(k)) {
            Some(d) => {
                proof {
                    lemma_pow10_mono(k as nat, 16);
                    assert(s@.take(k as int + 1).drop_last() =~= s@.take(k as int));
                    assert(pow10((k + 1) as nat) == 10 * pow10(k as nat));
                }
                acc = acc * 10 + (d as u128);
                k = k + 1;
                proof {
                    assert(all_digits(s@.take(k as int)));
                }
            },
            None => {
                proof {
                    assert(!is_digit(s@.take(dot as int)[k as int]));
                }
                return None;
            },
        }
    }
    proof {
        assert(s@.take(dot as int) =~= s@.take(k as int));
        assert(int_part_ok(s@.take(dot as int)));
        lemma_pow10_mono(dot as nat, 16);
    }
    if dot == n {
        let value: u128 = acc * 10000;
        if value > u64::MAX as u128 {
            return None;
        }
        return Some(value as u64);
    }
    let flen = n - dot - 1;
    if flen == 0 || flen > 4 {
        return None;
    }
    let mut facc: u64 = 0;
    let mut j: usize = dot + 1;
    while j < n
        invariant
            dot + 1 <= j <= n,
            n == s@.len(),
            dot < n,
            1 <= n - dot - 1 <= 4,
            first_dot(s@) == dot,
            all_digits(s@.subrange(dot as int + 1, j as int)),
            facc == digits_val(s@.subrange(dot as int + 1, j as int)),
            facc < pow10((j - dot - 1) as nat),
            pow10(4) == 10000,
            acc < pow10(16),
            pow10(16) == 0x2386f26fc10000,
        decreases n - j,
    {
        match digit_of(s.get_char(j)) {
            Some(d) => {
                proof {
                    lemma_pow10_mono((j - dot - 1) as nat, 4);
                    assert(s@.subrange(dot as int + 1, j as int + 1).drop_last() =~= s@.subrange(
                        dot as int + 1,
                        j as int,
                    ));
                    assert(pow10((j - dot) as nat) == 10 * pow10((j - dot - 1) as nat));
                }
                facc = facc * 10 + d;
                j = j + 1;
                proof {
                    assert(all_digits(s@.subrange(dot as int + 1, j as int)));
                }
            },
            None => {
                proof {
                    assert(!is_digit(s@.skip(dot as int + 1)[j - dot - 1]));
                }
                return None;
            },
        }
    }
    proof {
        assert(s@.skip(dot as int + 1) =~= s@.subrange(dot as int + 1, n as int));
        assert(frac_part_ok(s@.skip(dot as int + 1)));
        lemma_pow10_mono((n - dot - 1) as nat, 4);
    }
    let scale: u64 = if flen == 1 {
        1000
    } else if flen == 2 {
        100
    } else if flen == 3 {
        10
    } else {
        1
    };
    proof {
        assert(scale == pow10((4 - flen) as nat)) by {
            assert(pow10(0) == 1);
            assert(pow10(1) == 10);
            assert(pow10(2) == 100);
            assert(pow10(3) == 1000);
        };
    }
    let value: u128 = acc * 10000 + (facc as u128) * (scale as u128);
    if value > u64::MAX as u128 {
        None
    } else {
        Some(value as u64)
    }
}

/// `digit_char` always yields a decimal digit character.
proof fn lemma_digit_char_is_digit(d: int)
    ensures
        is_digit(digit_char(d)),
{
}

/// `digit_char` and `digit_val` are inverse on single digits.
proof fn lemma_digit_round_trip(d: int)
    requires
        0 <= d <= 9,
    ensures
        digit_val(digit_char(d)) == d,
{
}

/// Rendered decimal digits are digits, and there is at least one.
proof fn lemma_dec_digits_are_digits(n: nat)
    ensures
        all_digits(dec_digits(n)),
        dec_digits(n).len() >= 1,
    decreases n,
{
    if n < 10 {
        lemma_digit_char_is_digit(n as int);
    } else {
        lemma_dec_digits_are_digits(n / 10);
        lemma_digit_char_is_digit((n % 10) as int);
        assert forall|i: int| 0 <= i < dec_digits(n).len() implies is_digit(
            #[trigger] dec_digits(n)[i],
        ) by {
            if i < dec_digits(n / 10).len() {
                assert(dec_digits(n)[i] == dec_digits(n / 10)[i]);
            }
        }
    }
}

/// A positive number is rendered without a leading zero.
proof fn lemma_dec_digits_leading(n: nat)
    requires
        n >= 1,
    ensures
        dec_digits(n)[0] != '0',
    decreases n,
{
    if n >= 10 {
        lemma_dec_digits_leading(n / 10);
        assert(dec_digits(n)[0] == dec_digits(n / 10)[0]);
    }
}

/// Rendering digits and reading them back returns the number.
proof fn lemma_dec_digits_val(n: nat)
    ensures
        digits_val(dec_digits(n)) == n,
    decreases n,
{
    assert(digits_val(Seq::<char>::empty()) == 0);
    if n < 10 {
        assert(dec_digits(n).drop_last() =~= Seq::<char>::empty());
        assert(dec_digits(n).last() == digit_char(n as int));
        lemma_digit_round_trip(n as int);
    } else {
        lemma_dec_digits_val(n / 10);
        lemma_digit_round_trip((n % 10) as int);
        assert(dec_digits(n).drop_last() =~= dec_digits(n / 10));
        assert(dec_digits(n).last() == digit_char((n % 10) as int));
        assert(digits_val(dec_digits(n)) == (n / 10) * 10 + n % 10);
    }
}

/// Reading the four zero-padded fractional digits back returns the value.
proof fn lemma_frac4_val(r: nat)
    requires
        r < 10000,
    ensures
        digits_val(frac4(r)) == r,
{
    let f = frac4(r);
    lemma_digit_round_trip(((r / 1000) as int % 10));
    lemma_digit_round_trip(((r / 100) as int % 10));
    lemma_digit_round_trip(((r / 10) as int % 10));
    lemma_digit_round_trip((r as int % 10));
    let f3 = f.drop_last();
    let f2 = f3.drop_last();
    let f1 = f2.drop_last();
    assert(f3 =~= seq![
        digit_char((r / 1000) as int % 10),
        digit_char((r / 100) as int % 10),
        digit_char((r / 10) as int % 10),
    ]);
    assert(f2 =~= seq![digit_char((r / 1000) as int % 10), digit_char((r / 100) as int % 10)]);
    assert(f1 =~= seq![digit_char((r / 1000) as int % 10)]);
    assert(f1.drop_last() =~= Seq::<char>::empty());
    assert(digits_val(Seq::<char>::empty()) == 0);
    assert(f1.last() == digit_char((r / 1000) as int % 10));
    assert(digits_val(f1) == (r / 1000) as int % 10);
    assert(f2.last() == digit_char((r / 100) as int % 10));
    assert(digits_val(f2) == ((r / 1000) as int % 10) * 10 + (r / 100) as int % 10);
    assert(f3.last() == digit_char((r / 10) as int % 10));
    assert(digits_val(f3) == (((r / 1000) as int % 10) * 10 + (r / 100) as int % 10) * 10 + (r
        / 10) as int % 10);
    assert(f.last() == digit_char(r as int % 10));
    assert(f.drop_last() == f3);
    assert(r / 1000 < 10);
    assert(digits_val(f) == ((((r / 1000) as int % 10) * 10 + (r / 100) as int % 10) * 10 + (r
        / 10) as int % 10) * 10 + r as int % 10);
    assert((((r as int / 1000) * 10 + (r as int / 100) % 10) * 10 + (r as int / 10) % 10) * 10
        + r as int % 10 == r) by {
        assert(r as int / 100 == (r as int / 1000) * 10 + (r as int / 100) % 10);
        assert(r as int / 10 == (r as int / 100) * 10 + (r as int / 10) % 10);
        assert(r as int == (r as int / 10) * 10 + r as int % 10);
    };
}

/// LAW: rendering an amount and parsing the text back returns the same
/// amount — `format_amount` and `parse_amount` are inverse.
pub proof fn lemma_format_then_parse_round_trip(u: u64)
    ensures
        amount_units(amount_text(u)) == Some(u),
{
    let q = (u / 10000) as nat;
    let r = (u % 10000) as nat;
    let ip = dec_digits(q);
    let f = frac4(r);
    let text = amount_text(u);
    lemma_dec_digits_are_digits(q);
    let i = ip.len() as int;
    assert(text.len() == i + 1 + 4);
    assert forall|k: int| 0 <= k < i implies text[k] != '.' by {
        assert(text[k] == ip[k]);
        assert(is_digit(ip[k]));
    }
    assert(text[i] == '.');
    lemma_first_dot_at(text, i);
    assert(text.take(i) =~= ip);
    assert(text.skip(i + 1) =~= f);
    if ip.len() > 1 {
        assert(q >= 10);
        lemma_dec_digits_leading(q);
    }
    assert(int_part_ok(ip));
    lemma_digit_char_is_digit((r / 1000) as int % 10);
    lemma_digit_char_is_digit((r / 100) as int % 10);
    lemma_digit_char_is_digit((r / 10) as int % 10);
    lemma_digit_char_is_digit(r as int % 10);
    assert(all_digits(f)) by {
        assert forall|k: int| 0 <= k < f.len() implies is_digit(#[trigger] f[k]) by {
            assert(f[0] == digit_char((r / 1000) as int % 10));
            assert(f[1] == digit_char((r / 100) as int % 10));
            assert(f[2] == digit_char((r / 10) as int % 10));
            assert(f[3] == digit_char(r as int % 10));
        }
    }
    assert(frac_part_ok(f));
    lemma_dec_digits_val(q);
    lemma_frac4_val(r);
    assert(pow10(0) == 1);
    assert(digits_val(ip) * 10000 + digits_val(f) * pow10((4 - f.len()) as nat) == q * 10000 + r);
    assert(q * 10000 + r == u);
}

} // verus!
