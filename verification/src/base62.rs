//! Base-62 digits (`0-9`, `a-z`, `A-Z`) as used by friend codes.
use vstd::prelude::*;
use crate::bytes::power;

verus! {

/// The value of a base-62 digit character, if it is one.
pub open spec fn digit_value(c: char) -> Option<nat> {
    if '0' <= c && c <= '9' {
        Some((c as nat - '0' as nat) as nat)
    } else if 'a' <= c && c <= 'z' {
        Some((c as nat - 'a' as nat + 10) as nat)
    } else if 'A' <= c && c <= 'Z' {
        Some((c as nat - 'A' as nat + 36) as nat)
    } else {
        None
    }
}

/// The value of a character read leniently: anything that is not a digit counts as 0.
pub open spec fn lenient_digit(c: char) -> nat {
    match digit_value(c) {
        Some(d) => d,
        None => 0,
    }
}

/// The number whose base-62 digits, most significant first, are `s`, reading
/// non-digits as 0.
pub open spec fn base62_value(s: Seq<char>) -> nat
    decreases s.len(),
{
    if s.len() == 0 {
        0
    } else {
        base62_value(s.drop_last()) * 62 + lenient_digit(s.last())
    }
}

/// The index of the first character of `s` that is no digit, or its length if there is none.
pub open spec fn first_non_digit(s: Seq<char>) -> nat
    decreases s.len(),
{
    if s.len() == 0 {
        0
    } else if digit_value(s[0]).is_none() {
        0
    } else {
        1 + first_non_digit(s.drop_first())
    }
}

/// The largest running sum a positional decoding of `s` reaches before it stops at the
/// first non-digit: the value of the digits before it, scaled to their places.
pub open spec fn strict_partial_value(s: Seq<char>) -> nat {
    let k = first_non_digit(s);
    base62_value(s.take(k as int)) * power(62, (s.len() - k) as nat)
}

/// The character of a base-62 digit.
pub open spec fn digit_char(d: nat) -> char {
    if d < 10 {
        ('0' as nat + d) as char
    } else if d < 36 {
        ('a' as nat + d - 10) as char
    } else {
        ('A' as nat + d - 36) as char
    }
}

/// The `n` characters that encode `v`: its base-62 digits, most significant first,
/// right-aligned, with the unused leading places left as `'\0'`.
pub open spec fn encode_digits(v: nat, n: nat) -> Seq<char>
    decreases n,
{
    if n == 0 {
        Seq::empty()
    } else if v == 0 {
        Seq::new(n, |i: int| '\0')
    } else {
        let prefix = if v < 62 {
            Seq::new((n - 1) as nat, |i: int| '\0')
        } else {
            encode_digits(v / 62, (n - 1) as nat)
        };
        prefix.push(digit_char(v % 62))
    }
}

pub proof fn lemma_digit_char(d: nat)
    requires
        d < 62,
    ensures
        digit_value(digit_char(d)) == Some(d),
        digit_char(d) != '\0',
{
}

pub proof fn lemma_zero_chars_value(n: nat)
    ensures
        base62_value(Seq::new(n, |i: int| '\0')) == 0,
    decreases n,
{
    if n > 0 {
        lemma_zero_chars_value((n - 1) as nat);
        assert(Seq::new(n, |i: int| '\0').drop_last() =~= Seq::new((n - 1) as nat, |i: int| '\0'));
    }
}

pub proof fn lemma_encode_len(v: nat, n: nat)
    ensures
        encode_digits(v, n).len() == n,
    decreases n,
{
    if n > 0 && v >= 62 {
        lemma_encode_len(v / 62, (n - 1) as nat);
    }
}

/// Decoding the encoding of `v` leniently gives `v` back, when `v` fits in `n` digits.
pub proof fn lemma_encode_decode(v: nat, n: nat)
    requires
        v < power(62, n),
    ensures
        base62_value(encode_digits(v, n)) == v,
    decreases n,
{
    lemma_encode_len(v, n);
    if n == 0 {
    } else if v == 0 {
        lemma_zero_chars_value(n);
    } else {
        let prefix = if v < 62 {
            Seq::new((n - 1) as nat, |i: int| '\0')
        } else {
            encode_digits(v / 62, (n - 1) as nat)
        };
        assert(encode_digits(v, n).drop_last() =~= prefix);
        lemma_digit_char(v % 62);
        if v < 62 {
            lemma_zero_chars_value((n - 1) as nat);
        } else {
            let p = power(62, (n - 1) as nat);
            assert(v / 62 < p) by (nonlinear_arith)
                requires
                    v < 62 * p,
            ;
            lemma_encode_decode(v / 62, (n - 1) as nat);
        }
        assert(v == (v / 62) * 62 + v % 62) by (nonlinear_arith);
    }
}

/// The encoding of `v` in `n` places holds no `'\0'` when `v` needs all `n` of them.
pub proof fn lemma_encode_full(v: nat, n: nat)
    requires
        power(62, (n - 1) as nat) <= v,
        v < power(62, n),
        n >= 1,
    ensures
        forall|i: int| 0 <= i < n ==> digit_value(#[trigger] encode_digits(v, n)[i]).is_some(),
    decreases n,
{
    lemma_encode_len(v, n);
    crate::bytes::lemma_power_positive(62, (n - 1) as nat);
    lemma_digit_char(v % 62);
    if n == 1 {
        assert(power(62, 1) == 62);
        assert(power(62, 0) == 1);
    }
    if n > 1 {
        let p = power(62, (n - 2) as nat);
        assert(power(62, (n - 1) as nat) == 62 * p);
        assert(v >= 62);
        assert(p <= v / 62) by (nonlinear_arith)
            requires
                62 * p <= v,
        ;
        assert(power(62, n) == 62 * power(62, (n - 1) as nat));
        assert(v / 62 < power(62, (n - 1) as nat)) by (nonlinear_arith)
            requires
                v < 62 * power(62, (n - 1) as nat),
        ;
        lemma_encode_full(v / 62, (n - 1) as nat);
        assert forall|i: int| 0 <= i < n implies digit_value(#[trigger] encode_digits(v, n)[i]).is_some() by {
            if i < n - 1 {
                assert(encode_digits(v, n)[i] == encode_digits(v / 62, (n - 1) as nat)[i]);
            }
        }
    }
}

/// The sizes of the ranges that three, five, six and twenty-two digits span.
pub proof fn lemma_power_62_values()
    ensures
        power(62, 3) == 238328,
        power(62, 5) == 916132832,
        power(62, 6) == 56800235584,
        power(62, 22) == 2707803647802660400290261537185326956544nat,
{
    reveal_with_fuel(power, 23);
}

/// A sequence of digits only has no first non-digit.
pub proof fn lemma_all_digits(s: Seq<char>)
    requires
        forall|i: int| 0 <= i < s.len() ==> digit_value(#[trigger] s[i]).is_some(),
    ensures
        first_non_digit(s) == s.len(),
    decreases s.len(),
{
    if s.len() > 0 {
        assert(digit_value(s[0]).is_some());
        assert forall|i: int| 0 <= i < s.drop_first().len() implies digit_value(#[trigger] s.drop_first()[i]).is_some() by {
            assert(s.drop_first()[i] == s[i + 1]);
        }
        lemma_all_digits(s.drop_first());
    }
}

/// Every place of an encoding holds a digit or the filler `'\0'`.
pub proof fn lemma_encode_chars(v: nat, n: nat)
    ensures
        forall|i: int|
            0 <= i < n ==> #[trigger] encode_digits(v, n)[i] == '\0' || digit_value(
                encode_digits(v, n)[i],
            ).is_some(),
    decreases n,
{
    lemma_encode_len(v, n);
    if n > 0 && v != 0 {
        if v >= 62 {
            lemma_encode_chars(v / 62, (n - 1) as nat);
        }
        lemma_digit_char(v % 62);
        let prefix = if v < 62 {
            Seq::new((n - 1) as nat, |i: int| '\0')
        } else {
            encode_digits(v / 62, (n - 1) as nat)
        };
        assert forall|i: int| 0 <= i < n implies #[trigger] encode_digits(v, n)[i] == '\0' || digit_value(
            encode_digits(v, n)[i],
        ).is_some() by {
            if i < n - 1 {
                assert(encode_digits(v, n)[i] == prefix[i]);
            }
        }
    }
}

/// Encodings are made of ASCII characters.
pub proof fn lemma_encode_ascii(v: nat, n: nat)
    ensures
        vstd::utf8::is_ascii_chars(encode_digits(v, n)),
    decreases n,
{
    lemma_encode_len(v, n);
    if n > 0 && v != 0 {
        if v >= 62 {
            lemma_encode_ascii(v / 62, (n - 1) as nat);
        }
        let prefix = if v < 62 {
            Seq::new((n - 1) as nat, |i: int| '\0')
        } else {
            encode_digits(v / 62, (n - 1) as nat)
        };
        assert forall|i: int| 0 <= i < encode_digits(v, n).len() implies '\0' <= #[trigger] encode_digits(v, n)[i] <= '\u{7f}' by {
            if i < n - 1 {
                assert(encode_digits(v, n)[i] == prefix[i]);
            }
        }
    }
}

/// The character of a base-62 digit.
pub fn digit_to_char(d: u32) -> (c: char)
    requires
        d < 62,
    ensures
        c == digit_char(d as nat),
{
    if d < 10 {
        ((48u32 + d) as u8) as char
    } else if d < 36 {
        ((97u32 + d - 10) as u8) as char
    } else {
        ((65u32 + d - 36) as u8) as char
    }
}

/// The value of a base-62 digit character, if it is one.
pub fn char_to_digit(c: char) -> (r: Option<u32>)
    ensures
        match r {
            Some(d) => digit_value(c) == Some(d as nat),
            None => digit_value(c).is_none(),
        },
{
    if c >= '0' && c <= '9' {
        Some(c as u32 - '0' as u32)
    } else if c >= 'a' && c <= 'z' {
        Some(c as u32 - 'a' as u32 + 10)
    } else if c >= 'A' && c <= 'Z' {
        Some(c as u32 - 'A' as u32 + 36)
    } else {
        None
    }
}

proof fn lemma_value_take_step(s: Seq<char>, i: int)
    requires
        0 <= i < s.len(),
    ensures
        base62_value(s.take(i + 1)) == base62_value(s.take(i)) * 62 + lenient_digit(s[i]),
{
    assert(s.take(i + 1).drop_last() =~= s.take(i));
}

proof fn lemma_value_mono(s: Seq<char>, i: int, j: int)
    requires
        0 <= i <= j <= s.len(),
    ensures
        base62_value(s.take(i)) * power(62, (j - i) as nat) <= base62_value(s.take(j)),
    decreases j - i,
{
    if i < j {
        lemma_value_mono(s, i, j - 1);
        lemma_value_take_step(s, j - 1);
        let a = base62_value(s.take(i));
        let p = power(62, (j - 1 - i) as nat);
        assert(power(62, (j - i) as nat) == 62 * p);
        let w = base62_value(s.take(j - 1));
        assert(a * power(62, (j - i) as nat) <= w * 62) by (nonlinear_arith)
            requires
                a * p <= w,
                power(62, (j - i) as nat) == 62 * p,
        ;
    } else {
        assert(power(62, 0) == 1);
        let a = base62_value(s.take(i));
        assert(a * power(62, 0) == a) by (nonlinear_arith)
            requires
                power(62, 0) == 1,
        ;
    }
}

/// Reads `digits` as a base-62 number, counting non-digits as 0.
pub fn decode_lenient(digits: &[char]) -> (r: u128)
    requires
        base62_value(digits@) <= u128::MAX,
    ensures
        r == base62_value(digits@),
{
    let n = digits.len();
    let mut i: usize = 0;
    let mut retvl: u128 = 0;
    assert(digits@.take(0) =~= Seq::<char>::empty());
    while i < n
        invariant
            i <= n,
            n == digits@.len(),
            base62_value(digits@) <= u128::MAX,
            retvl == base62_value(digits@.take(i as int)),
        decreases n - i,
    {
        let coeff = match char_to_digit(digits[i]) {
            Some(d) => d,
            None => 0,
        };
        proof {
            lemma_value_take_step(digits@, i as int);
            lemma_value_mono(digits@, (i + 1) as int, n as int);
            assert(digits@.take(n as int) =~= digits@);
            crate::bytes::lemma_power_positive(62, (n - i - 1) as nat);
            let v = base62_value(digits@.take(i + 1));
            assert(v <= v * power(62, (n - i - 1) as nat)) by (nonlinear_arith)
                requires
                    power(62, (n - i - 1) as nat) > 0,
            ;
        }
        retvl = retvl * 62 + coeff as u128;
        i = i + 1;
    }
    assert(digits@.take(n as int) =~= digits@);
    retvl
}

/// Reads `digits` as a base-62 number, stopping at the first character that is no
/// digit and giving it back.
pub fn decode_strict(digits: &[char]) -> (r: Result<u128, char>)
    requires
        strict_partial_value(digits@) <= u128::MAX,
    ensures
        first_non_digit(digits@) < digits@.len() ==> r == Err::<u128, char>(digits@[first_non_digit(digits@) as int]),
        first_non_digit(digits@) >= digits@.len() ==> r == Ok::<u128, char>(base62_value(digits@) as u128),
{
    let n = digits.len();
    let ghost k = first_non_digit(digits@);
    proof {
        lemma_first_non_digit(digits@);
    }
    let mut i: usize = 0;
    let mut retvl: u128 = 0;
    assert(digits@.take(0) =~= Seq::<char>::empty());
    while i < n
        invariant
            i <= n,
            n == digits@.len(),
            k == first_non_digit(digits@),
            k <= n,
            i <= k,
            forall|j: int| 0 <= j < k ==> digit_value(#[trigger] digits@[j]).is_some(),
            k < n ==> digit_value(digits@[k as int]).is_none(),
            base62_value(digits@.take(k as int)) * power(62, (n - k) as nat) <= u128::MAX,
            retvl == base62_value(digits@.take(i as int)),
        decreases n - i,
    {
        let c = digits[i];
        let coeff = match char_to_digit(c) {
            Some(d) => d,
            None => {
                assert(i == k);
                return Err(c);
            },
        };
        proof {
            lemma_value_take_step(digits@, i as int);
            lemma_value_mono(digits@, (i + 1) as int, k as int);
            crate::bytes::lemma_power_positive(62, (k - i - 1) as nat);
            crate::bytes::lemma_power_positive(62, (n - k) as nat);
            let v = base62_value(digits@.take(i + 1));
            let w = base62_value(digits@.take(k as int));
            assert(v <= w) by (nonlinear_arith)
                requires
                    v * power(62, (k - i - 1) as nat) <= w,
                    power(62, (k - i - 1) as nat) > 0,
            ;
            assert(w <= w * power(62, (n - k) as nat)) by (nonlinear_arith)
                requires
                    power(62, (n - k) as nat) > 0,
            ;
        }
        retvl = retvl * 62 + coeff as u128;
        i = i + 1;
    }
    assert(digits@.take(n as int) =~= digits@);
    Ok(retvl)
}

pub proof fn lemma_first_non_digit(s: Seq<char>)
    ensures
        first_non_digit(s) <= s.len(),
        forall|j: int| 0 <= j < first_non_digit(s) ==> digit_value(#[trigger] s[j]).is_some(),
        first_non_digit(s) < s.len() ==> digit_value(s[first_non_digit(s) as int]).is_none(),
    decreases s.len(),
{
    if s.len() > 0 && digit_value(s[0]).is_some() {
        lemma_first_non_digit(s.drop_first());
        assert forall|j: int| 0 <= j < first_non_digit(s) implies digit_value(#[trigger] s[j]).is_some() by {
            if j > 0 {
                assert(s[j] == s.drop_first()[j - 1]);
            }
        }
    }
}

/// Whether `digits`, read leniently, stay at or below `max`.
pub fn fits_within(digits: &[char], max: u128) -> (r: bool)
    requires
        max >= 61,
    ensures
        r == (base62_value(digits@) <= max),
{
    let n = digits.len();
    let mut i: usize = 0;
    let mut acc: u128 = 0;
    assert(digits@.take(0) =~= Seq::<char>::empty());
    while i < n
        invariant
            i <= n,
            n == digits@.len(),
            acc == base62_value(digits@.take(i as int)),
            acc <= max,
            max >= 61,
        decreases n - i,
    {
        let coeff = match char_to_digit(digits[i]) {
            Some(d) => d as u128,
            None => 0,
        };
        proof {
            lemma_value_take_step(digits@, i as int);
        }
        if acc > (max - coeff) / 62 {
            proof {
                lemma_value_mono(digits@, (i + 1) as int, n as int);
                assert(digits@.take(n as int) =~= digits@);
                crate::bytes::lemma_power_positive(62, (n - i - 1) as nat);
                let v = base62_value(digits@.take(i + 1));
                assert(v > max) by (nonlinear_arith)
                    requires
                        acc > (max - coeff) / 62,
                        v == acc * 62 + coeff,
                        coeff <= max,
                ;
                assert(v <= v * power(62, (n - i - 1) as nat)) by (nonlinear_arith)
                    requires
                        power(62, (n - i - 1) as nat) > 0,
                ;
            }
            return false;
        }
        assert(acc * 62 + coeff <= max) by (nonlinear_arith)
            requires
                acc <= (max - coeff) / 62,
                coeff <= max,
        ;
        acc = acc * 62 + coeff;
        i = i + 1;
    }
    assert(digits@.take(n as int) =~= digits@);
    true
}

/// Whether reading `digits` up to their first non-digit, scaled to place, stays at or
/// below `max`.
pub fn strict_fits_within(digits: &[char], max: u128) -> (r: bool)
    requires
        max >= 61,
    ensures
        r == (strict_partial_value(digits@) <= max),
{
    let n = digits.len();
    let ghost k = first_non_digit(digits@);
    proof {
        lemma_first_non_digit(digits@);
    }
    let mut i: usize = 0;
    let mut acc: u128 = 0;
    let mut stopped = false;
    assert(digits@.take(0) =~= Seq::<char>::empty());
    while !stopped
        invariant
            i <= k <= n,
            n == digits@.len(),
            k == first_non_digit(digits@),
            max >= 61,
            forall|j: int| 0 <= j < k ==> digit_value(#[trigger] digits@[j]).is_some(),
            k < n ==> digit_value(digits@[k as int]).is_none(),
            acc == base62_value(digits@.take(i as int)),
            acc <= max,
            stopped ==> i == k,
        decreases n - i + (if stopped { 0int } else { 1int }),
    {
        if i == n {
            stopped = true;
        } else {
            match char_to_digit(digits[i]) {
                None => {
                    stopped = true;
                },
                Some(d) => {
                    let coeff = d as u128;
                    proof {
                        lemma_value_take_step(digits@, i as int);
                    }
                    if acc > (max - coeff) / 62 {
                        proof {
                            let v = base62_value(digits@.take(i + 1));
                            assert(v > max) by (nonlinear_arith)
                                requires
                                    acc > (max - coeff) / 62,
                                    v == acc * 62 + coeff,
                                    coeff <= max,
                            ;
                            lemma_value_mono(digits@, (i + 1) as int, k as int);
                            crate::bytes::lemma_power_positive(62, (k - i - 1) as nat);
                            crate::bytes::lemma_power_positive(62, (n - k) as nat);
                            let w = base62_value(digits@.take(k as int));
                            assert(v <= w) by (nonlinear_arith)
                                requires
                                    v * power(62, (k - i - 1) as nat) <= w,
                                    power(62, (k - i - 1) as nat) > 0,
                            ;
                            assert(w <= w * power(62, (n - k) as nat)) by (nonlinear_arith)
                                requires
                                    power(62, (n - k) as nat) > 0,
                            ;
                        }
                        return false;
                    }
                    assert(acc * 62 + coeff <= max) by (nonlinear_arith)
                        requires
                            acc <= (max - coeff) / 62,
                            coeff <= max,
                    ;
                    acc = acc * 62 + coeff;
                    i = i + 1;
                }
            }
        }
    }
    let mut j: usize = i;
    assert(power(62, 0) == 1);
    assert(acc == base62_value(digits@.take(k as int)) * power(62, 0)) by (nonlinear_arith)
        requires
            acc == base62_value(digits@.take(k as int)),
            power(62, 0) == 1,
    ;
    while j < n
        invariant
            k <= j <= n,
            i == k,
            n == digits@.len(),
            k == first_non_digit(digits@),
            acc == base62_value(digits@.take(k as int)) * power(62, (j - k) as nat),
            acc <= max,
        decreases n - j,
    {
        let ghost w = base62_value(digits@.take(k as int));
        proof {
            assert(power(62, (j + 1 - k) as nat) == 62 * power(62, (j - k) as nat));
            assert(w * power(62, (j + 1 - k) as nat) == acc * 62) by (nonlinear_arith)
                requires
                    acc == w * power(62, (j - k) as nat),
                    power(62, (j + 1 - k) as nat) == 62 * power(62, (j - k) as nat),
            ;
        }
        if acc > max / 62 {
            proof {
                assert(acc * 62 > max) by (nonlinear_arith)
                    requires
                        acc > max / 62,
                ;
                crate::bytes::lemma_power_positive(62, (n - j - 1) as nat);
                let p = power(62, (n - j - 1) as nat);
                crate::bytes::lemma_power_adds_62((j + 1 - k) as nat, (n - j - 1) as nat);
                assert(acc * 62 <= acc * 62 * p) by (nonlinear_arith)
                    requires
                        p > 0,
                ;
                assert(w * power(62, (n - k) as nat) == acc * 62 * p) by (nonlinear_arith)
                    requires
                        w * power(62, (j + 1 - k) as nat) == acc * 62,
                        power(62, (n - k) as nat) == power(62, (j + 1 - k) as nat) * p,
                ;
            }
            return false;
        }
        assert(acc * 62 <= max) by (nonlinear_arith)
            requires
                acc <= max / 62,
        ;
        acc = acc * 62;
        j = j + 1;
    }
    true
}

/// The `n` characters that encode `v` in base 62.
pub fn encode(v: u128, n: usize) -> (r: Vec<char>)
    requires
        v < power(62, n as nat),
    ensures
        r@ == encode_digits(v as nat, n as nat),
{
    let mut out: Vec<char> = Vec::new();
    let mut k: usize = 0;
    while k < n
        invariant
            k <= n,
            out@ == Seq::new(k as nat, |i: int| '\0'),
        decreases n - k,
    {
        out.push('\0');
        k = k + 1;
    }
    assert(out@ =~= Seq::new(n as nat, |i: int| '\0'));
    if n == 0 {
        return out;
    }
    let mut left = v;
    let mut cur_idx = n - 1;
    let mut done = v == 0;
    proof {
        lemma_encode_len(v as nat, n as nat);
        if v == 0 {
            assert(encode_digits(0, n as nat) =~= Seq::new(n as nat, |i: int| '\0'));
        }
        assert(out@.subrange(n as int, n as int) =~= Seq::<char>::empty());
        assert(encode_digits(v as nat, n as nat) + Seq::<char>::empty() =~= encode_digits(v as nat, n as nat));
    }
    while !done
        invariant
            0 < n,
            cur_idx < n,
            out@.len() == n,
            done ==> out@ == encode_digits(v as nat, n as nat),
            !done ==> left > 0,
            !done ==> left < power(62, (cur_idx + 1) as nat),
            !done ==> forall|i: int| 0 <= i <= cur_idx ==> #[trigger] out@[i] == '\0',
            !done ==> encode_digits(v as nat, n as nat) == encode_digits(left as nat, (cur_idx + 1) as nat)
                + out@.subrange(cur_idx + 1, n as int),
        decreases left + (if done { 0int } else { 1int }),
    {
        let digit = (left % 62) as u32;
        let ch = digit_to_char(digit);
        let ghost old_out = out@;
        let ghost tail = old_out.subrange(cur_idx + 1, n as int);
        out.set(cur_idx, ch);
        proof {
            lemma_encode_len(left as nat, (cur_idx + 1) as nat);
            let d = digit_char(left as nat % 62);
            assert(out@.subrange(cur_idx as int, n as int) =~= seq![d] + tail);
            if left < 62 {
                assert(encode_digits(left as nat, (cur_idx + 1) as nat) == Seq::new(cur_idx as nat, |i: int| '\0').push(d));
                assert(out@ =~= Seq::new(cur_idx as nat, |i: int| '\0').push(d) + tail);
            } else {
                let p = power(62, cur_idx as nat);
                assert(cur_idx >= 1) by {
                    if cur_idx == 0 {
                        assert(power(62, 1) == 62);
                    }
                }
                assert(power(62, (cur_idx + 1) as nat) == 62 * p);
                assert(left / 62 < p) by (nonlinear_arith)
                    requires
                        left < 62 * p,
                ;
                lemma_encode_len((left / 62) as nat, cur_idx as nat);
                assert(encode_digits(left as nat, (cur_idx + 1) as nat) == encode_digits((left / 62) as nat, cur_idx as nat).push(d));
                assert(encode_digits((left / 62) as nat, cur_idx as nat).push(d) + tail =~= encode_digits(
                    (left / 62) as nat,
                    cur_idx as nat,
                ) + out@.subrange(cur_idx as int, n as int));
            }
        }
        if left < 62 {
            done = true;
        } else {
            left = left / 62;
            cur_idx = cur_idx - 1;
        }
    }
    out
}

} // verus!
