//! 256-bit unsigned integers, as the channel contract counts balances and nonces.

use vstd::arithmetic::div_mod::{
    lemma_breakdown, lemma_div_denominator, lemma_fundamental_div_mod_converse,
};
use vstd::prelude::*;

verus! {

/// Two to the power 128: the weight of the high half of a [`U256`].
pub open spec fn pow2_128() -> nat {
    0x1_0000_0000_0000_0000_0000_0000_0000_0000nat
}

/// Two to the power 256: one more than the largest [`U256`].
pub open spec fn pow2_256() -> nat {
    pow2_128() * pow2_128()
}

/// 256 to the power `k`: the number of values that `k` bytes can hold.
pub open spec fn pow256(k: nat) -> nat
    decreases k,
{
    if k == 0 {
        1
    } else {
        256 * pow256((k - 1) as nat)
    }
}

/// The `len` low-order base-256 digits of `n`, most significant first.
pub open spec fn big_endian(n: nat, len: nat) -> Seq<u8>
    decreases len,
{
    if len == 0 {
        Seq::empty()
    } else {
        big_endian(n / 256, (len - 1) as nat).push((n % 256) as u8)
    }
}

/// The number whose base-256 digits, most significant first, are `bytes`.
pub open spec fn big_endian_value(bytes: Seq<u8>) -> nat
    decreases bytes.len(),
{
    if bytes.len() == 0 {
        0
    } else {
        big_endian_value(bytes.drop_last()) * 256 + bytes.last() as nat
    }
}

/// A 256-bit unsigned integer, held as two 128-bit halves.
#[derive(Debug, Clone, Copy, PartialEq, Eq, PartialOrd, Ord, Hash, Structural)]
pub struct U256 {
    /// The 128 most significant bits.
    pub hi: u128,
    /// The 128 least significant bits.
    pub lo: u128,
}

impl View for U256 {
    type V = nat;

    /// The number that the two halves stand for.
    open spec fn view(&self) -> nat {
        self.hi as nat * pow2_128() + self.lo as nat
    }
}

impl U256 {
    /// The integer with the given halves.
    pub fn new(hi: u128, lo: u128) -> (n: U256)
        ensures
            n.hi == hi,
            n.lo == lo,
    {
        U256 { hi, lo }
    }

    /// Zero.
    pub fn zero() -> (n: U256)
        ensures
            n@ == 0,
    {
        U256 { hi: 0, lo: 0 }
    }

    /// The integer equal to `value`.
    pub fn from_u64(value: u64) -> (n: U256)
        ensures
            n@ == value,
    {
        U256 { hi: 0, lo: value as u128 }
    }

    /// The integer equal to `value`.
    pub fn from_u128(value: u128) -> (n: U256)
        ensures
            n@ == value,
    {
        U256 { hi: 0, lo: value }
    }

    /// Whether this integer is zero.
    pub fn is_zero(&self) -> (b: bool)
        ensures
            b == (self@ == 0),
    {
        proof {
            lemma_view_injective(*self, U256 { hi: 0, lo: 0 });
        }
        self.hi == 0 && self.lo == 0
    }

    /// Whether this integer is strictly less than `other`.
    pub fn lt(&self, other: &U256) -> (b: bool)
        ensures
            b == (self@ < other@),
    {
        proof {
            lemma_view_order(*self, *other);
        }
        self.hi < other.hi || (self.hi == other.hi && self.lo < other.lo)
    }

    /// Whether this integer is less than or equal to `other`.
    pub fn le(&self, other: &U256) -> (b: bool)
        ensures
            b == (self@ <= other@),
    {
        proof {
            lemma_view_order(*self, *other);
            lemma_view_order(*other, *self);
        }
        self.hi < other.hi || (self.hi == other.hi && self.lo <= other.lo)
    }

    /// Whether the two integers are the same number.
    pub fn same(&self, other: &U256) -> (b: bool)
        ensures
            b == (self@ == other@),
            b == (*self == *other),
    {
        proof {
            lemma_view_injective(*self, *other);
        }
        self.hi == other.hi && self.lo == other.lo
    }

    /// The 32 bytes of this integer, most significant first.
    pub fn to_be_bytes(&self) -> (bytes: [u8; 32])
        ensures
            bytes@ == big_endian(self@, 32),
    {
        let mut out = [0u8; 32];
        let mut rest: u128 = self.lo;
        let mut i: usize = 32;
        while i > 16
            invariant
                16 <= i <= 32,
                big_endian(self.lo as nat, 16) == big_endian(rest as nat, (i - 16) as nat)
                    + out@.subrange(i as int, 32),
            decreases i,
        {
            i -= 1;
            out[i] = (rest % 256) as u8;
            rest = rest / 256;
        }
        assert(out@.subrange(16, 32) == big_endian(self.lo as nat, 16));
        rest = self.hi;
        while i > 0
            invariant
                0 <= i <= 16,
                out@.subrange(16, 32) == big_endian(self.lo as nat, 16),
                big_endian(self.hi as nat, 16) == big_endian(rest as nat, i as nat)
                    + out@.subrange(i as int, 16),
            decreases i,
        {
            i -= 1;
            let ghost before = out@;
            out[i] = (rest % 256) as u8;
            rest = rest / 256;
            assert(out@.subrange(16, 32) == before.subrange(16, 32));
        }
        proof {
            lemma_halves(*self);
            lemma_big_endian_split(self@, 16, 16);
            assert(out@ == out@.subrange(0, 16) + out@.subrange(16, 32));
        }
        out
    }

    /// The integer whose 32 bytes, most significant first, are `bytes`.
    pub fn from_be_bytes(bytes: &[u8; 32]) -> (n: U256)
        ensures
            n@ == big_endian_value(bytes@),
            big_endian(n@, 32) == bytes@,
    {
        let mut hi: u128 = 0;
        let mut i: usize = 0;
        assert(bytes@.subrange(0, 0) == Seq::<u8>::empty());
        while i < 16
            invariant
                0 <= i <= 16,
                hi == big_endian_value(bytes@.subrange(0, i as int)),
                hi < pow256(i as nat),
            decreases 16 - i,
        {
            proof {
                lemma_pow256_grows((i + 1) as nat, 16);
                lemma_pow256_16();
                let seen = bytes@.subrange(0, i + 1);
                assert(seen.drop_last() == bytes@.subrange(0, i as int));
            }
            hi = hi * 256 + bytes[i] as u128;
            i += 1;
        }
        let mut lo: u128 = 0;
        assert(bytes@.subrange(16, 16) == Seq::<u8>::empty());
        while i < 32
            invariant
                16 <= i <= 32,
                hi == big_endian_value(bytes@.subrange(0, 16)),
                lo == big_endian_value(bytes@.subrange(16, i as int)),
                lo < pow256((i - 16) as nat),
            decreases 32 - i,
        {
            proof {
                lemma_pow256_grows((i - 16 + 1) as nat, 16);
                lemma_pow256_16();
                let seen = bytes@.subrange(16, i + 1);
                assert(seen.drop_last() == bytes@.subrange(16, i as int));
            }
            lo = lo * 256 + bytes[i] as u128;
            i += 1;
        }
        let n = U256 { hi, lo };
        proof {
            lemma_pow256_16();
            assert(bytes@ == bytes@.subrange(0, 16) + bytes@.subrange(16, 32));
            lemma_big_endian_value_concat(bytes@.subrange(0, 16), bytes@.subrange(16, 32));
            lemma_big_endian_of_value(bytes@);
        }
        n
    }

    /// The `U256` that stands for `n`, for `n` below two to the power 256.
    pub open spec fn from_nat(n: nat) -> U256 {
        U256 { hi: (n / pow2_128()) as u128, lo: (n % pow2_128()) as u128 }
    }

    /// The difference `self - other`, or `None` where it would be negative.
    pub fn checked_sub(&self, other: &U256) -> (difference: Option<U256>)
        ensures
            difference is Some <==> other@ <= self@,
            difference matches Some(d) ==> d@ == self@ - other@ && d == U256::from_nat(
                (self@ - other@) as nat,
            ),
    {
        proof {
            lemma_view_order(*self, *other);
        }
        if self.hi < other.hi || (self.hi == other.hi && self.lo < other.lo) {
            None
        } else if self.lo >= other.lo {
            let d = U256 { hi: self.hi - other.hi, lo: self.lo - other.lo };
            assert(d@ == self@ - other@) by (nonlinear_arith)
                requires
                    d.hi == self.hi - other.hi,
                    d.lo == self.lo - other.lo,
                    d@ == d.hi as nat * pow2_128() + d.lo as nat,
                    self@ == self.hi as nat * pow2_128() + self.lo as nat,
                    other@ == other.hi as nat * pow2_128() + other.lo as nat,
            ;
            proof {
                lemma_from_nat(d);
            }
            Some(d)
        } else {
            let borrowed: u128 = u128::MAX - other.lo + 1 + self.lo;
            let d = U256 { hi: self.hi - other.hi - 1, lo: borrowed };
            assert(d@ == self@ - other@) by (nonlinear_arith)
                requires
                    d.hi == self.hi - other.hi - 1,
                    d.lo == pow2_128() - other.lo + self.lo,
                    d@ == d.hi as nat * pow2_128() + d.lo as nat,
                    self@ == self.hi as nat * pow2_128() + self.lo as nat,
                    other@ == other.hi as nat * pow2_128() + other.lo as nat,
            ;
            proof {
                lemma_from_nat(d);
            }
            Some(d)
        }
    }
}

/// Every `U256` stands for a number below two to the power 256.
pub proof fn lemma_view_bound(a: U256)
    ensures
        a@ < pow2_256(),
{
    assert(a.hi as nat * pow2_128() + (a.lo as nat) < pow2_128() * pow2_128()) by (nonlinear_arith)
        requires
            a.hi < pow2_128(),
            a.lo < pow2_128(),
    ;
}

/// The order of two `U256` is the order of their halves, the high half first.
pub proof fn lemma_view_order(a: U256, b: U256)
    ensures
        a@ < b@ <==> (a.hi < b.hi || (a.hi == b.hi && a.lo < b.lo)),
{
    let p = pow2_128();
    if a.hi < b.hi {
        assert(a.hi as nat * p + (a.lo as nat) < b.hi as nat * p + (b.lo as nat)) by (nonlinear_arith)
            requires
                a.hi < b.hi,
                a.lo < p,
        ;
    } else if a.hi > b.hi {
        assert(b.hi as nat * p + (b.lo as nat) < a.hi as nat * p + (a.lo as nat)) by (nonlinear_arith)
            requires
                b.hi < a.hi,
                b.lo < p,
        ;
    }
}

/// Two `U256` that stand for the same number have the same halves.
pub proof fn lemma_view_injective(a: U256, b: U256)
    ensures
        a@ == b@ <==> a == b,
{
    lemma_view_order(a, b);
    lemma_view_order(b, a);
}

/// `from_nat` gives back the `U256` whose number it is given.
pub proof fn lemma_from_nat(a: U256)
    ensures
        U256::from_nat(a@) == a,
{
    lemma_fundamental_div_mod_converse(
        a@ as int,
        pow2_128() as int,
        a.hi as int,
        a.lo as int,
    );
}

/// 256 to the power 16 is two to the power 128.
pub proof fn lemma_pow256_16()
    ensures
        pow256(16) == pow2_128(),
{
    reveal_with_fuel(pow256, 17);
}

/// Every power of 256 is positive.
pub proof fn lemma_pow256_positive(k: nat)
    ensures
        pow256(k) > 0,
    decreases k,
{
    if k > 0 {
        lemma_pow256_positive((k - 1) as nat);
    }
}

/// The halves of a `U256` are the quotient and remainder of its number by two
/// to the power 128.
pub proof fn lemma_halves(a: U256)
    ensures
        a@ / pow256(16) == a.hi,
        a@ % pow256(16) == a.lo,
{
    lemma_pow256_16();
    lemma_fundamental_div_mod_converse(
        a@ as int,
        pow2_128() as int,
        a.hi as int,
        a.lo as int,
    );
}

/// An encoding of `len` bytes has `len` bytes.
pub proof fn lemma_big_endian_len(n: nat, len: nat)
    ensures
        big_endian(n, len).len() == len,
    decreases len,
{
    if len > 0 {
        lemma_big_endian_len(n / 256, (len - 1) as nat);
    }
}

/// An encoding of `a + b` bytes is the encoding of the high part in `a` bytes
/// followed by the encoding of the low part in `b` bytes.
pub proof fn lemma_big_endian_split(n: nat, a: nat, b: nat)
    ensures
        big_endian(n, a + b) == big_endian(n / pow256(b), a) + big_endian(n % pow256(b), b),
    decreases b,
{
    if b == 0 {
        assert(big_endian(n % pow256(b), b) == Seq::<u8>::empty());
        assert(big_endian(n, a) + Seq::<u8>::empty() == big_endian(n, a));
    } else {
        let p = pow256((b - 1) as nat);
        lemma_pow256_positive((b - 1) as nat);
        lemma_big_endian_split(n / 256, a, (b - 1) as nat);
        lemma_div_denominator(n as int, 256, p as int);
        lemma_breakdown(n as int, 256, p as int);
        let m = n % pow256(b);
        let q = (n / 256) % p;
        let r = n % 256;
        lemma_fundamental_div_mod_converse(m as int, 256, q as int, r as int);
        assert(big_endian(m, b) == big_endian(q, (b - 1) as nat).push(r as u8));
        assert(big_endian(n, a + b) == big_endian(n / 256, (a + b - 1) as nat).push(r as u8));
        assert(big_endian(n, a + b) == big_endian(n / pow256(b), a) + big_endian(m, b));
    }
}

/// Reading an encoding back gives the number, as far as the bytes hold it.
pub proof fn lemma_big_endian_value(n: nat, len: nat)
    ensures
        big_endian_value(big_endian(n, len)) == n % pow256(len),
    decreases len,
{
    if len > 0 {
        let p = pow256((len - 1) as nat);
        lemma_pow256_positive((len - 1) as nat);
        lemma_big_endian_value(n / 256, (len - 1) as nat);
        let bytes = big_endian(n, len);
        assert(bytes.drop_last() == big_endian(n / 256, (len - 1) as nat));
        lemma_breakdown(n as int, 256, p as int);
    }
}

/// 256 to the power 32 is two to the power 256.
pub proof fn lemma_pow256_32()
    ensures
        pow256(32) == pow2_256(),
{
    reveal_with_fuel(pow256, 33);
}

/// Two numbers below two to the power 256 with the same 32-byte encoding are
/// the same number.
pub proof fn lemma_big_endian_injective(a: nat, b: nat)
    requires
        a < pow2_256(),
        b < pow2_256(),
        big_endian(a, 32) == big_endian(b, 32),
    ensures
        a == b,
{
    lemma_pow256_32();
    lemma_big_endian_value(a, 32);
    lemma_big_endian_value(b, 32);
    vstd::arithmetic::div_mod::lemma_small_mod(a, pow256(32));
    vstd::arithmetic::div_mod::lemma_small_mod(b, pow256(32));
}

/// `from_nat` makes the `U256` that stands for `n`.
pub proof fn lemma_view_of_from_nat(n: nat)
    requires
        n < pow2_256(),
    ensures
        U256::from_nat(n)@ == n,
{
    let p = pow2_128();
    assert(n / p < p) by (nonlinear_arith)
        requires
            n < p * p,
            p > 0,
    ;
    vstd::arithmetic::div_mod::lemma_fundamental_div_mod(n as int, p as int);
    assert(0 <= n % p < p);
    assert(p * (n / p) == (n / p) * p) by (nonlinear_arith);
}

/// The powers of 256 grow with the exponent.
pub proof fn lemma_pow256_grows(a: nat, b: nat)
    requires
        a <= b,
    ensures
        pow256(a) <= pow256(b),
    decreases b,
{
    if a < b {
        lemma_pow256_grows(a, (b - 1) as nat);
        lemma_pow256_positive((b - 1) as nat);
    }
}

/// The number that two rows of bytes spell together is the number of the
/// first row, shifted by the length of the second, plus that of the second.
pub proof fn lemma_big_endian_value_concat(high: Seq<u8>, low: Seq<u8>)
    ensures
        big_endian_value(high + low) == big_endian_value(high) * pow256(low.len())
            + big_endian_value(low),
    decreases low.len(),
{
    let x = big_endian_value(high);
    if low.len() == 0 {
        assert(high + low == high);
        assert(x * 1 == x) by (nonlinear_arith);
    } else {
        let rest = low.drop_last();
        lemma_big_endian_value_concat(high, rest);
        assert((high + low).drop_last() == high + rest);
        assert((high + low).last() == low.last());
        let y = big_endian_value(rest);
        let p = pow256(rest.len());
        assert(pow256(low.len()) == 256 * p);
        assert(big_endian_value(high + low) == (x * p + y) * 256 + low.last() as nat);
        assert(big_endian_value(low) == y * 256 + low.last() as nat);
        assert((x * p + y) * 256 == x * (256 * p) + y * 256) by (nonlinear_arith);
    }
}

/// Encoding the number that a row of bytes spells, in as many bytes, gives
/// the row back.
pub proof fn lemma_big_endian_of_value(bytes: Seq<u8>)
    ensures
        big_endian(big_endian_value(bytes), bytes.len()) == bytes,
    decreases bytes.len(),
{
    if bytes.len() > 0 {
        let rest = bytes.drop_last();
        lemma_big_endian_of_value(rest);
        let value = big_endian_value(bytes);
        lemma_fundamental_div_mod_converse(
            value as int,
            256,
            big_endian_value(rest) as int,
            bytes.last() as int,
        );
        assert(big_endian(value, bytes.len()) == rest.push(bytes.last()));
        assert(rest.push(bytes.last()) == bytes);
    } else {
        assert(bytes == Seq::<u8>::empty());
    }
}

/// Reading back the bytes of a `U256` gives the same `U256`.
pub proof fn lemma_be_bytes_round_trip(a: U256)
    ensures
        big_endian_value(big_endian(a@, 32)) == a@,
{
    lemma_view_bound(a);
    lemma_pow256_32();
    lemma_big_endian_value(a@, 32);
    vstd::arithmetic::div_mod::lemma_small_mod(a@, pow256(32));
}

} // verus!
