//! Building strings character by character, trimming and searching them, and reading
//! decimal numbers.
use vstd::prelude::*;
use vstd::string::StrSliceExecFns;

verus! {

/// Calls `String::push`: appends `c`.
#[verifier::external_body]
pub(crate) fn push_char(s: &mut String, c: char)
    ensures
        final(s)@ == old(s)@.push(c),
{
    s.push(c)
}

/// The string of the given characters.
pub fn chars_to_string(chars: &[char]) -> (r: String)
    ensures
        r@ == chars@,
{
    let mut out = String::new();
    let n = chars.len();
    let mut i: usize = 0;
    while i < n
        invariant
            i <= n,
            n == chars@.len(),
            out@ == chars@.take(i as int),
        decreases n - i,
    {
        push_char(&mut out, chars[i]);
        assert(chars@.take(i + 1) =~= chars@.take(i as int).push(chars@[i as int]));
        i = i + 1;
    }
    assert(chars@.take(n as int) =~= chars@);
    out
}

/// `word` occurs in `s` as a contiguous run.
pub open spec fn has_infix(s: Seq<u8>, word: Seq<u8>) -> bool {
    exists|i: int| 0 <= i && i + word.len() <= s.len() && #[trigger] s.subrange(i, i + word.len()) == word
}

/// Whether `word` occurs in `s`.
pub fn contains_bytes(s: &[u8], word: &[u8]) -> (r: bool)
    ensures
        r == has_infix(s@, word@),
{
    let n = s.len();
    let m = word.len();
    if n < m {
        assert forall|i: int| 0 <= i && i + m <= n implies #[trigger] s@.subrange(i, i + word@.len()) != word@ by {}
        return false;
    }
    let mut i: usize = 0;
    while i <= n - m
        invariant
            n == s@.len(),
            m == word@.len(),
            m <= n,
            i <= n - m + 1,
            forall|j: int| 0 <= j < i ==> #[trigger] s@.subrange(j, j + word@.len()) != word@,
        decreases n - m + 1 - i,
    {
        let mut k: usize = 0;
        let mut same = true;
        while k < m
            invariant
                k <= m,
                i + m <= n,
                n == s@.len(),
                m == word@.len(),
                same == (forall|q: int| 0 <= q < k ==> s@[i + q] == word@[q]),
            decreases m - k,
        {
            if s[i + k] != word[k] {
                same = false;
            }
            k = k + 1;
        }
        if same {
            assert(s@.subrange(i as int, i + word@.len()) =~= word@);
            return true;
        }
        let ghost q = choose|q: int| 0 <= q < m && s@[i + q] != word@[q];
        assert(s@.subrange(i as int, i + word@.len())[q] != word@[q]);
        i = i + 1;
    }
    assert forall|j: int| 0 <= j && j + m <= n implies #[trigger] s@.subrange(j, j + word@.len()) != word@ by {
        assert(j < i);
    }
    false
}

/// `word` occurs in `s` at index `i`.
pub open spec fn occurs_at(s: Seq<char>, word: Seq<char>, i: int) -> bool {
    0 <= i && i + word.len() <= s.len() && s.subrange(i, i + word.len()) == word
}

/// `word` occurs somewhere in `s`.
pub open spec fn occurs_in(s: Seq<char>, word: Seq<char>) -> bool {
    exists|i: int| #[trigger] occurs_at(s, word, i)
}

/// Where `word` first occurs in `s`, as a character index.
pub fn find_str(s: &str, word: &str) -> (r: Option<usize>)
    ensures
        match r {
            Some(i) => occurs_at(s@, word@, i as int) && forall|j: int| 0 <= j < i ==> !#[trigger] occurs_at(s@, word@, j),
            None => forall|j: int| !#[trigger] occurs_at(s@, word@, j),
        },
{
    let n = s.unicode_len();
    let m = word.unicode_len();
    if n < m {
        return None;
    }
    let mut i: usize = 0;
    while i <= n - m
        invariant
            n == s@.len(),
            m == word@.len(),
            m <= n,
            i <= n - m + 1,
            forall|j: int| 0 <= j < i ==> !#[trigger] occurs_at(s@, word@, j),
        decreases n - m + 1 - i,
    {
        let mut k: usize = 0;
        let mut same = true;
        while k < m && same
            invariant
                k <= m,
                i + m <= n,
                n == s@.len(),
                m == word@.len(),
                same == (forall|q: int| 0 <= q < k ==> s@[i + q] == word@[q]),
            decreases m - k,
        {
            if s.get_char(i + k) != word.get_char(k) {
                same = false;
            }
            k = k + 1;
        }
        if same {
            assert(s@.subrange(i as int, i + word@.len()) =~= word@);
            return Some(i);
        }
        let ghost q = choose|q: int| 0 <= q < k && s@[i + q] != word@[q];
        assert(s@.subrange(i as int, i + word@.len())[q] != word@[q]);
        i = i + 1;
    }
    None
}

/// `c` has Unicode's White_Space property: tab, line feed, vertical tab, form feed,
/// carriage return, space, next line, no-break space, Ogham space mark, the spaces from
/// en quad to hair space, line and paragraph separators, narrow no-break space, medium
/// mathematical space and ideographic space.
pub open spec fn is_whitespace(c: char) -> bool {
    let v = c as u32;
    ||| 9 <= v <= 13
    ||| v == 0x20
    ||| v == 0x85
    ||| v == 0xa0
    ||| v == 0x1680
    ||| 0x2000 <= v <= 0x200a
    ||| v == 0x2028
    ||| v == 0x2029
    ||| v == 0x202f
    ||| v == 0x205f
    ||| v == 0x3000
}

/// Calls `char::is_whitespace`, which is true exactly of the characters with Unicode's
/// White_Space property, as `is_whitespace` lists them.
#[verifier::external_body]
fn char_is_whitespace(c: char) -> (r: bool)
    ensures
        r == is_whitespace(c),
{
    c.is_whitespace()
}

/// The index of the first character of `s` that is not white space (its length if none).
pub open spec fn trim_start_index(s: Seq<char>) -> int
    decreases s.len(),
{
    if s.len() == 0 {
        0
    } else if is_whitespace(s[0]) {
        1 + trim_start_index(s.drop_first())
    } else {
        0
    }
}

/// The index just after the last character of `s` that is not white space (0 if none).
pub open spec fn trim_end_index(s: Seq<char>) -> int
    decreases s.len(),
{
    if s.len() == 0 {
        0
    } else if is_whitespace(s.last()) {
        trim_end_index(s.drop_last())
    } else {
        s.len() as int
    }
}

/// `s` without its leading and trailing white space, as `str::trim` gives it.
pub open spec fn trimmed(s: Seq<char>) -> Seq<char> {
    if trim_start_index(s) < trim_end_index(s) {
        s.subrange(trim_start_index(s), trim_end_index(s))
    } else {
        Seq::empty()
    }
}

proof fn lemma_trim_start_step(s: Seq<char>, i: int)
    requires
        0 <= i < s.len(),
        is_whitespace(s[i]),
    ensures
        trim_start_index(s.subrange(i, s.len() as int)) == 1 + trim_start_index(s.subrange(i + 1, s.len() as int)),
{
    assert(s.subrange(i, s.len() as int).drop_first() =~= s.subrange(i + 1, s.len() as int));
}

proof fn lemma_trim_end_step(s: Seq<char>, j: int)
    requires
        0 < j <= s.len(),
        is_whitespace(s[j - 1]),
    ensures
        trim_end_index(s.take(j)) == trim_end_index(s.take(j - 1)),
{
    assert(s.take(j).drop_last() =~= s.take(j - 1));
}

proof fn lemma_trim_end_bound(s: Seq<char>)
    ensures
        0 <= trim_end_index(s) <= s.len(),
    decreases s.len(),
{
    if s.len() > 0 {
        lemma_trim_end_bound(s.drop_last());
    }
}

proof fn lemma_trim_start_bound(s: Seq<char>)
    ensures
        0 <= trim_start_index(s) <= s.len(),
    decreases s.len(),
{
    if s.len() > 0 {
        lemma_trim_start_bound(s.drop_first());
    }
}

/// `s` without its leading and trailing white space.
pub fn trim(s: &str) -> (r: &str)
    ensures
        r@ == trimmed(s@),
{
    let n = s.unicode_len();
    let mut i: usize = 0;
    assert(s@.subrange(0, n as int) =~= s@);
    while i < n && char_is_whitespace(s.get_char(i))
        invariant
            i <= n,
            n == s@.len(),
            trim_start_index(s@) == i + trim_start_index(s@.subrange(i as int, n as int)),
        decreases n - i,
    {
        proof {
            lemma_trim_start_step(s@, i as int);
        }
        i = i + 1;
    }
    proof {
        if i < n {
            assert(!is_whitespace(s@.subrange(i as int, n as int)[0]));
        }
        assert(trim_start_index(s@) == i);
    }
    let mut j: usize = n;
    assert(s@.take(n as int) =~= s@);
    while j > i && char_is_whitespace(s.get_char(j - 1))
        invariant
            i <= j <= n,
            n == s@.len(),
            trim_start_index(s@) == i,
            trim_end_index(s@) == trim_end_index(s@.take(j as int)),
        decreases j,
    {
        proof {
            lemma_trim_end_step(s@, j as int);
        }
        j = j - 1;
    }
    proof {
        if j > i {
            assert(!is_whitespace(s@.take(j as int).last()));
            assert(trim_end_index(s@) == j);
        } else {
            lemma_trim_end_bound(s@.take(j as int));
            assert(trim_end_index(s@) <= i);
        }
    }
    s.substring_char(i, j)
}

/// `c` is an ASCII decimal digit.
pub open spec fn is_digit(c: char) -> bool {
    '0' <= c && c <= '9'
}

/// The number written by the decimal digits `s`.
pub open spec fn decimal_value(s: Seq<char>) -> nat
    decreases s.len(),
{
    if s.len() == 0 {
        0
    } else {
        decimal_value(s.drop_last()) * 10 + ((s.last() as u32) - 48) as nat
    }
}

/// `s` without a leading `+`.
pub open spec fn sign_stripped(s: Seq<char>) -> Seq<char> {
    if s.len() > 0 && s[0] == '+' {
        s.drop_first()
    } else {
        s
    }
}

/// Every character of `s` is a decimal digit.
pub open spec fn all_digits(s: Seq<char>) -> bool {
    forall|i: int| 0 <= i < s.len() ==> is_digit(#[trigger] s[i])
}

/// What `str::parse::<u64>` gives: an optional `+` followed by one or more decimal
/// digits, whose value fits in 64 bits.
pub open spec fn parse_u64(s: Seq<char>) -> Option<u64> {
    let digits = sign_stripped(s);
    if digits.len() > 0 && all_digits(digits) && decimal_value(digits) <= u64::MAX {
        Some(decimal_value(digits) as u64)
    } else {
        None
    }
}

proof fn lemma_decimal_mono(s: Seq<char>, k: int)
    requires
        0 <= k <= s.len(),
        all_digits(s),
    ensures
        decimal_value(s.take(k)) <= decimal_value(s),
    decreases s.len() - k,
{
    if k < s.len() {
        lemma_decimal_mono(s, k + 1);
        assert(s.take(k + 1).drop_last() =~= s.take(k));
    } else {
        assert(s.take(k) =~= s);
    }
}

/// Reads a decimal number as `str::parse::<u64>` does.
pub fn parse_decimal(s: &str) -> (r: Option<u64>)
    ensures
        r == parse_u64(s@),
{
    let n = s.unicode_len();
    let start: usize = if n > 0 && s.get_char(0) == '+' {
        1
    } else {
        0
    };
    let ghost digits = sign_stripped(s@);
    assert(digits =~= s@.subrange(start as int, n as int));
    if start >= n {
        return None;
    }
    let mut value: u64 = 0;
    let mut k: usize = start;
    while k < n
        invariant
            start <= k <= n,
            n == s@.len(),
            digits == s@.subrange(start as int, n as int),
            digits == sign_stripped(s@),
            forall|i: int| 0 <= i < k - start ==> is_digit(#[trigger] digits[i]),
            value == decimal_value(digits.take(k - start)),
        decreases n - k,
    {
        let c = s.get_char(k);
        assert(digits[k - start] == c);
        if !('0' <= c && c <= '9') {
            assert(!is_digit(digits[k - start]));
            return None;
        }
        let d = (c as u32 - 48) as u64;
        proof {
            assert(digits.take(k - start + 1).drop_last() =~= digits.take(k - start));
            assert(digits.take(k - start + 1).last() == c);
            assert(decimal_value(digits.take(k - start + 1)) == value * 10 + d);
        }
        let scaled = value.checked_mul(10);
        let next = match scaled {
            Some(v) => v.checked_add(d),
            None => None,
        };
        match next {
            Some(v) => {
                value = v;
            },
            None => {
                proof {
                    assert forall|i: int| 0 <= i < k - start + 1 implies is_digit(#[trigger] digits.take(k - start + 1)[i]) by {
                        if i < k - start {
                            assert(digits.take(k - start + 1)[i] == digits[i]);
                        }
                    }
                    if all_digits(digits) {
                        lemma_decimal_mono(digits, k - start + 1);
                    }
                }
                return None;
            },
        }
        k = k + 1;
    }
    assert(digits.take(n - start) =~= digits);
    Some(value)
}

/// The character of a digit below sixteen: `0` to `9`, then `a` to `f`.
pub open spec fn hex_digit(d: nat) -> char {
    if d < 10 {
        (48 + d) as char
    } else {
        (87 + d) as char
    }
}

/// The digits of `n` in base `base`, most significant first, without leading zeros
/// (`0` for zero).
pub open spec fn digits_text(n: nat, base: nat) -> Seq<char>
    recommends
        2 <= base <= 16,
    decreases n,
{
    if n < base || base < 2 {
        seq![hex_digit(n)]
    } else {
        proof {
            assert(n / base < n) by (nonlinear_arith)
                requires
                    2 <= base <= n,
            ;
        }
        digits_text(n / base, base).push(hex_digit(n % base))
    }
}

fn digit_char(d: u64) -> (c: char)
    requires
        d < 16,
    ensures
        c == hex_digit(d as nat),
{
    if d < 10 {
        ((48 + d) as u8) as char
    } else {
        ((87 + d) as u8) as char
    }
}

/// Appends the digits of `n` in base `base`: decimal or lower-case hexadecimal.
pub fn push_digits(s: &mut String, n: u64, base: u64)
    requires
        2 <= base <= 16,
    ensures
        final(s)@ == old(s)@ + digits_text(n as nat, base as nat),
    decreases n,
{
    assert(n % base < base && (n < base ==> n % base == n)) by (nonlinear_arith)
        requires
            2 <= base,
    ;
    if n >= base {
        assert(n / base < n) by (nonlinear_arith)
            requires
                2 <= base <= n,
        ;
        push_digits(s, n / base, base);
    }
    push_char(s, digit_char(n % base));
    assert(final(s)@ =~= old(s)@ + digits_text(n as nat, base as nat));
}

} // verus!
