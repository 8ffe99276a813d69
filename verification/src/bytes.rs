//! Little-endian integer encoding over byte sequences.
use vstd::prelude::*;

verus! {

/// `base` raised to `exp`.
pub open spec fn power(base: nat, exp: nat) -> nat
    decreases exp,
{
    if exp == 0 {
        1
    } else {
        base * power(base, (exp - 1) as nat)
    }
}

/// The number whose little-endian base-256 digits are `s`.
pub open spec fn le_value(s: Seq<u8>) -> nat
    decreases s.len(),
{
    if s.len() == 0 {
        0
    } else {
        s[0] as nat + 256 * le_value(s.drop_first())
    }
}

/// The `len` lowest little-endian bytes of `v`.
pub open spec fn le_bytes(v: nat, len: nat) -> Seq<u8>
    decreases len,
{
    if len == 0 {
        Seq::empty()
    } else {
        seq![(v % 256) as u8] + le_bytes(v / 256, (len - 1) as nat)
    }
}

pub proof fn lemma_power_positive(base: nat, exp: nat)
    requires
        base > 0,
    ensures
        power(base, exp) > 0,
    decreases exp,
{
    if exp > 0 {
        lemma_power_positive(base, (exp - 1) as nat);
        assert(base * power(base, (exp - 1) as nat) > 0) by (nonlinear_arith)
            requires
                base > 0,
                power(base, (exp - 1) as nat) > 0,
        ;
    }
}

pub proof fn lemma_le_value_bound(s: Seq<u8>)
    ensures
        le_value(s) < power(256, s.len()),
    decreases s.len(),
{
    if s.len() > 0 {
        lemma_le_value_bound(s.drop_first());
        let r = le_value(s.drop_first());
        let p = power(256, (s.len() - 1) as nat);
        assert(s[0] as nat + 256 * r < 256 * p) by (nonlinear_arith)
            requires
                r < p,
                s[0] < 256,
        ;
    }
}

pub proof fn lemma_le_bytes_len(v: nat, len: nat)
    ensures
        le_bytes(v, len).len() == len,
    decreases len,
{
    if len > 0 {
        lemma_le_bytes_len(v / 256, (len - 1) as nat);
    }
}

/// Reading back `le_bytes(v, len)` gives `v` modulo `256^len`.
pub proof fn lemma_le_roundtrip(v: nat, len: nat)
    ensures
        le_value(le_bytes(v, len)) == v % power(256, len),
    decreases len,
{
    lemma_le_bytes_len(v, len);
    if len == 0 {
    } else {
        let rest = le_bytes(v / 256, (len - 1) as nat);
        lemma_le_roundtrip(v / 256, (len - 1) as nat);
        assert(le_bytes(v, len).drop_first() =~= rest);
        let p = power(256, (len - 1) as nat);
        lemma_power_positive(256, (len - 1) as nat);
        assert((v % 256) + 256 * ((v / 256) % p) == v % (256 * p)) by (nonlinear_arith)
            requires
                p > 0,
        {
            vstd::arithmetic::div_mod::lemma_breakdown(v as int, 256, p as int);
        }
    }
}

/// The first `len` bytes of `v` read back to `v` itself when it fits.
pub proof fn lemma_le_roundtrip_fits(v: nat, len: nat)
    requires
        v < power(256, len),
    ensures
        le_value(le_bytes(v, len)) == v,
{
    lemma_le_roundtrip(v, len);
    vstd::arithmetic::div_mod::lemma_small_mod(v, power(256, len));
}

/// The eight little-endian bytes of `v`.
pub fn u64_to_le(v: u64) -> (r: [u8; 8])
    ensures
        r@ == le_bytes(v as nat, 8),
{
    let mut out = [0u8; 8];
    let mut i: usize = 0;
    let mut rem: u64 = v;
    proof {
        lemma_le_bytes_len(v as nat, 8);
        assert(power(256, 0) == 1);
        assert(v as nat / 1 == v as nat);
    }
    while i < 8
        invariant
            i <= 8,
            out@.len() == 8,
            le_bytes(v as nat, 8).len() == 8,
            rem == v as nat / power(256, i as nat),
            forall|k: int| 0 <= k < i ==> #[trigger] out@[k] == le_bytes(v as nat, 8)[k],
        decreases 8 - i,
    {
        proof {
            lemma_le_bytes_index(v as nat, 8, i as nat);
        }
        out[i] = (rem % 256) as u8;
        proof {
            lemma_power_positive(256, i as nat);
            vstd::arithmetic::div_mod::lemma_div_denominator(v as int, power(256, i as nat) as int, 256);
            assert(power(256, (i + 1) as nat) == power(256, i as nat) * 256) by (nonlinear_arith)
                requires
                    power(256, (i + 1) as nat) == 256 * power(256, i as nat),
            ;
        }
        rem = rem / 256;
        i = i + 1;
    }
    assert(out@ =~= le_bytes(v as nat, 8));
    out
}

/// Reads the little-endian number stored in `data[start..start + len]`.
pub fn read_le(data: &[u8], start: usize, len: usize) -> (v: u128)
    requires
        start + len <= data@.len(),
        len <= 16,
    ensures
        v == le_value(data@.subrange(start as int, start + len)),
{
    let _n = data.len();
    let mut i: usize = len;
    let mut v: u128 = 0;
    assert(data@.subrange(start + len, start + len) =~= Seq::<u8>::empty());
    while i > 0
        invariant
            i <= len <= 16,
            start + len <= data@.len() <= usize::MAX,
            v == le_value(data@.subrange(start + i, start + len)),
        decreases i,
    {
        let ghost tail = data@.subrange(start + i, start + len);
        proof {
            lemma_le_value_bound(tail);
            assert(power(256, tail.len()) <= power(256, 15)) by {
                lemma_power_mono(256, tail.len(), 15);
            }
            lemma_power_256_15();
        }
        i = i - 1;
        let b = data[start + i];
        v = (b as u128) + 256 * v;
        assert(data@.subrange(start + i, start + len).drop_first() =~= tail);
    }
    v
}

pub proof fn lemma_power_256_15()
    ensures
        power(256, 15) == 0x1_0000_0000_0000_0000_0000_0000_0000_00nat,
{
    reveal_with_fuel(power, 16);
}

pub proof fn lemma_power_256_16()
    ensures
        power(256, 16) == 0x1_0000_0000_0000_0000_0000_0000_0000_0000nat,
{
    reveal_with_fuel(power, 17);
}

pub proof fn lemma_power_256_8()
    ensures
        power(256, 8) == 0x1_0000_0000_0000_0000nat,
        power(256, 5) == 0x100_0000_0000nat,
{
    reveal_with_fuel(power, 9);
}

/// `62^(a + b) == 62^a * 62^b`.
pub proof fn lemma_power_adds_62(a: nat, b: nat)
    ensures
        power(62, a + b) == power(62, a) * power(62, b),
    decreases a,
{
    if a > 0 {
        let a1 = (a - 1) as nat;
        lemma_power_adds_62(a1, b);
        assert(a1 + b + 1 == a + b);
        assert(power(62, a + b) == 62 * power(62, a1 + b));
        assert(power(62, a) == 62 * power(62, a1));
        let x = power(62, a1);
        let y = power(62, b);
        assert(62 * (x * y) == (62 * x) * y) by (nonlinear_arith);
    } else {
        assert(power(62, 0) == 1);
        assert(1 * power(62, b) == power(62, b));
    }
}

pub proof fn lemma_power_mono(base: nat, e1: nat, e2: nat)
    requires
        base > 0,
        e1 <= e2,
    ensures
        power(base, e1) <= power(base, e2),
    decreases e2,
{
    if e1 < e2 {
        lemma_power_mono(base, e1, (e2 - 1) as nat);
        lemma_power_positive(base, (e2 - 1) as nat);
        assert(power(base, (e2 - 1) as nat) <= base * power(base, (e2 - 1) as nat)) by (nonlinear_arith)
            requires
                base > 0,
        ;
    }
}

/// The `j`-th byte of `le_bytes(v, len)` is digit `j` of `v` in base 256.
pub proof fn lemma_le_bytes_index(v: nat, len: nat, j: nat)
    requires
        j < len,
    ensures
        le_bytes(v, len).len() == len,
        le_bytes(v, len)[j as int] == ((v / power(256, j)) % 256) as u8,
    decreases len,
{
    lemma_le_bytes_len(v, len);
    lemma_le_bytes_len(v / 256, (len - 1) as nat);
    let rest = le_bytes(v / 256, (len - 1) as nat);
    assert(le_bytes(v, len) == seq![(v % 256) as u8] + rest);
    if j > 0 {
        lemma_le_bytes_index(v / 256, (len - 1) as nat, (j - 1) as nat);
        lemma_power_positive(256, (j - 1) as nat);
        vstd::arithmetic::div_mod::lemma_div_denominator(v as int, 256, power(256, (j - 1) as nat) as int);
        assert(le_bytes(v, len)[j as int] == rest[j - 1]);
        assert(power(256, j) == 256 * power(256, (j - 1) as nat));
    } else {
        assert(power(256, 0) == 1);
        assert(v / 1 == v);
    }
}

/// Stores the `len` lowest little-endian bytes of `v` at `data[start..start + len]`.
pub fn write_le(data: &mut [u8; 32], start: usize, len: usize, v: u128)
    requires
        start + len <= 32,
    ensures
        forall|i: int| 0 <= i < 32 ==> #[trigger] final(data)@[i] == if start <= i < start + len {
            le_bytes(v as nat, len as nat)[i - start]
        } else {
            old(data)@[i]
        },
{
    let mut i: usize = 0;
    let mut rem: u128 = v;
    proof {
        lemma_le_bytes_len(v as nat, len as nat);
        assert(power(256, 0) == 1);
        assert(v as nat / 1 == v as nat);
    }
    while i < len
        invariant
            i <= len,
            start + len <= 32,
            le_bytes(v as nat, len as nat).len() == len,
            rem == v as nat / power(256, i as nat),
            forall|k: int| 0 <= k < 32 ==> #[trigger] data@[k] == if start <= k < start + i {
                le_bytes(v as nat, len as nat)[k - start]
            } else {
                old(data)@[k]
            },
        decreases len - i,
    {
        proof {
            lemma_le_bytes_index(v as nat, len as nat, i as nat);
        }
        data[start + i] = (rem % 256) as u8;
        proof {
            lemma_power_positive(256, i as nat);
            vstd::arithmetic::div_mod::lemma_div_denominator(v as int, power(256, i as nat) as int, 256);
            assert(power(256, (i + 1) as nat) == power(256, i as nat) * 256) by (nonlinear_arith)
                requires
                    power(256, (i + 1) as nat) == 256 * power(256, i as nat),
            ;
        }
        rem = rem / 256;
        i = i + 1;
    }
}

} // verus!
