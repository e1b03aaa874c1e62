//! The 256-bit word, `primitive_types::U256`, and its numeric model.
use vstd::prelude::*;
use vstd::arithmetic::div_mod::*;
use vstd::arithmetic::power::{lemma_pow0, lemma_pow1, lemma_pow_adds, lemma_pow_multiplies, pow};
use vstd::arithmetic::power2::{lemma2_to64, lemma2_to64_rest, lemma_pow2, lemma_pow2_adds};
use primitive_types::{U256, U512};

verus! {

#[verifier::external_type_specification]
pub struct ExU256(U256);

#[verifier::external_type_specification]
pub struct ExU512(U512);

/// 2^64, the base of one limb.
pub open spec fn limb_base() -> nat {
    0x1_0000_0000_0000_0000nat
}

/// 2^256: words are taken modulo this.
pub open spec fn modulus() -> nat {
    0x1_0000_0000_0000_0000_0000_0000_0000_0000_0000_0000_0000_0000_0000_0000_0000_0000nat
}

/// 2^255: the weight of the sign bit.
pub open spec fn half_modulus() -> nat {
    0x8000_0000_0000_0000_0000_0000_0000_0000_0000_0000_0000_0000_0000_0000_0000_0000nat
}

/// The number that four little-endian 64-bit limbs stand for.
pub open spec fn limbs_value(l0: u64, l1: u64, l2: u64, l3: u64) -> nat {
    (l0 + limb_base() * (l1 + limb_base() * (l2 + limb_base() * l3))) as nat
}

/// The unsigned reading of a word.
pub open spec fn val(w: U256) -> nat {
    limbs_value(w.0[0], w.0[1], w.0[2], w.0[3])
}

/// The unsigned reading of a double-width word.
pub open spec fn val512(w: U512) -> nat {
    (limbs_value(w.0[0], w.0[1], w.0[2], w.0[3]) + modulus() * limbs_value(
        w.0[4],
        w.0[5],
        w.0[6],
        w.0[7],
    )) as nat
}

/// Limb `i` (0 = least significant) of a number below 2^256.
pub open spec fn limb_of(n: nat, i: int) -> u64 {
    if i == 0 {
        (n % limb_base()) as u64
    } else if i == 1 {
        ((n / limb_base()) % limb_base()) as u64
    } else if i == 2 {
        ((n / limb_base() / limb_base()) % limb_base()) as u64
    } else {
        (n / limb_base() / limb_base() / limb_base()) as u64
    }
}

/// The two's-complement (signed) reading of an unsigned value.
pub open spec fn signed(v: nat) -> int {
    if v < half_modulus() {
        v as int
    } else {
        v - modulus()
    }
}

/// An integer reduced into the word range (two's-complement wrap).
pub open spec fn wrap(i: int) -> nat {
    (i % (modulus() as int)) as nat
}

pub proof fn lemma_val_bound(w: U256)
    ensures
        val(w) < modulus(),
{
}

/// The limbs of a word are recovered from its value.
pub proof fn lemma_limbs_of_val(w: U256)
    ensures
        limb_of(val(w), 0) == w.0[0],
        limb_of(val(w), 1) == w.0[1],
        limb_of(val(w), 2) == w.0[2],
        limb_of(val(w), 3) == w.0[3],
{
    let b = limb_base() as int;
    let r1 = w.0[1] + b * (w.0[2] + b * w.0[3]);
    let r2 = w.0[2] + b * w.0[3];
    lemma_fundamental_div_mod_converse(val(w) as int, b, r1, w.0[0] as int);
    lemma_fundamental_div_mod_converse(r1, b, r2, w.0[1] as int);
    lemma_fundamental_div_mod_converse(r2, b, w.0[3] as int, w.0[2] as int);
}

/// The word whose unsigned reading is `n` (for `n` below 2^64).
pub fn from_u64(n: u64) -> (r: U256)
    ensures
        val(r) == n,
{
    U256([n, 0, 0, 0])
}

/// The low limb of a word known to be below 256, as a `u32`.
pub fn small_value_u32(w: U256) -> (r: u32)
    requires
        val(w) < 256,
    ensures
        r == val(w),
{
    w.0[0] as u32
}

/// The word 0.
pub fn zero() -> (r: U256)
    ensures
        val(r) == 0,
{
    from_u64(0)
}

/// The largest word, 2^256 - 1.
pub fn max_word() -> (r: U256)
    ensures
        val(r) == modulus() - 1,
{
    U256([u64::MAX, u64::MAX, u64::MAX, u64::MAX])
}

/// The word 2^255, the smallest negative value in the signed reading.
pub fn sign_bit_word() -> (r: U256)
    ensures
        val(r) == half_modulus(),
{
    U256([0, 0, 0, 0x8000_0000_0000_0000])
}

/// Relies on `U256::overflowing_add`: the sum modulo 2^256.
#[verifier::external_body]
pub(crate) fn wrapping_add(a: U256, b: U256) -> (r: U256)
    ensures
        val(r) == (val(a) + val(b)) % modulus(),
{
    a.overflowing_add(b).0
}

/// Relies on `U256::overflowing_sub`: the difference modulo 2^256.
#[verifier::external_body]
pub(crate) fn wrapping_sub(a: U256, b: U256) -> (r: U256)
    ensures
        val(r) == wrap(val(a) - val(b)),
{
    a.overflowing_sub(b).0
}

/// Relies on `U256::overflowing_mul`: the product modulo 2^256.
#[verifier::external_body]
pub(crate) fn wrapping_mul(a: U256, b: U256) -> (r: U256)
    ensures
        val(r) == (val(a) * val(b)) % modulus(),
{
    a.overflowing_mul(b).0
}

/// Relies on `U256::overflowing_pow`: the power modulo 2^256, with 0^0 = 1.
#[verifier::external_body]
pub(crate) fn wrapping_pow(a: U256, e: U256) -> (r: U256)
    ensures
        val(r) == vstd::arithmetic::power::pow(val(a) as int, val(e)) % (modulus() as int),
{
    a.overflowing_pow(e).0
}

/// Relies on `U256 / U256` (`div_mod`), which panics on a zero divisor.
#[verifier::external_body]
pub(crate) fn quotient(a: U256, b: U256) -> (r: U256)
    requires
        val(b) != 0,
    ensures
        val(r) == val(a) / val(b),
{
    a / b
}

/// Relies on `U256 % U256` (`div_mod`), which panics on a zero divisor.
#[verifier::external_body]
pub(crate) fn remainder(a: U256, b: U256) -> (r: U256)
    requires
        val(b) != 0,
    ensures
        val(r) == val(a) % val(b),
{
    a % b
}

/// Relies on `U256 < U256` (`Ord`, limbs compared from the most significant).
#[verifier::external_body]
pub(crate) fn less_than(a: U256, b: U256) -> (r: bool)
    ensures
        r == (val(a) < val(b)),
{
    a < b
}

/// Relies on `U256 << u32`: bits shifted out at the top are lost.
#[verifier::external_body]
pub(crate) fn shift_left(a: U256, s: u32) -> (r: U256)
    requires
        s < 256,
    ensures
        val(r) == (val(a) * vstd::arithmetic::power2::pow2(s as nat)) % modulus(),
{
    a << s
}

/// Relies on `U256 >> u32`: a logical shift, zeros come in at the top.
#[verifier::external_body]
pub(crate) fn shift_right(a: U256, s: u32) -> (r: U256)
    requires
        s < 256,
    ensures
        val(r) == val(a) / vstd::arithmetic::power2::pow2(s as nat),
{
    a >> s
}

/// Relies on `U256 & U256`: limb by limb.
#[verifier::external_body]
pub(crate) fn bit_and(a: U256, b: U256) -> (r: U256)
    ensures
        r.0[0] == a.0[0] & b.0[0],
        r.0[1] == a.0[1] & b.0[1],
        r.0[2] == a.0[2] & b.0[2],
        r.0[3] == a.0[3] & b.0[3],
{
    a & b
}

/// Relies on `U256 | U256`: limb by limb.
#[verifier::external_body]
pub(crate) fn bit_or(a: U256, b: U256) -> (r: U256)
    ensures
        r.0[0] == a.0[0] | b.0[0],
        r.0[1] == a.0[1] | b.0[1],
        r.0[2] == a.0[2] | b.0[2],
        r.0[3] == a.0[3] | b.0[3],
{
    a | b
}

/// Relies on `U256 ^ U256`: limb by limb.
#[verifier::external_body]
pub(crate) fn bit_xor(a: U256, b: U256) -> (r: U256)
    ensures
        r.0[0] == a.0[0] ^ b.0[0],
        r.0[1] == a.0[1] ^ b.0[1],
        r.0[2] == a.0[2] ^ b.0[2],
        r.0[3] == a.0[3] ^ b.0[3],
{
    a ^ b
}

/// Relies on `!U256`: limb by limb.
#[verifier::external_body]
pub(crate) fn bit_not(a: U256) -> (r: U256)
    ensures
        r.0[0] == !a.0[0],
        r.0[1] == !a.0[1],
        r.0[2] == !a.0[2],
        r.0[3] == !a.0[3],
{
    !a
}

/// The number that a big-endian byte sequence stands for.
pub open spec fn be_val(s: Seq<u8>) -> nat
    decreases s.len(),
{
    if s.len() == 0 {
        0
    } else {
        (be_val(s.drop_last()) * 256 + s.last()) as nat
    }
}

/// The `k`-byte big-endian encoding of `n` (taken modulo 256^k).
pub open spec fn be_bytes(n: nat, k: nat) -> Seq<u8>
    decreases k,
{
    if k == 0 {
        Seq::empty()
    } else {
        be_bytes(n / 256, (k - 1) as nat).push((n % 256) as u8)
    }
}

pub proof fn lemma_be_bytes_len(n: nat, k: nat)
    ensures
        be_bytes(n, k).len() == k,
    decreases k,
{
    if k > 0 {
        lemma_be_bytes_len(n / 256, (k - 1) as nat);
    }
}

/// Decoding the `k`-byte big-endian encoding of `n` gives `n` back.
pub proof fn lemma_be_round_trip(n: nat, k: nat)
    requires
        n < pow(256, k),
    ensures
        be_val(be_bytes(n, k)) == n,
    decreases k,
{
    if k == 0 {
        lemma_pow0(256);
    } else {
        let p = pow(256, (k - 1) as nat);
        lemma_pow_adds(256, 1, (k - 1) as nat);
        lemma_pow1(256);
        lemma_multiply_divide_lt(n as int, 256, p);
        lemma_be_round_trip(n / 256, (k - 1) as nat);
        assert(be_bytes(n, k).drop_last() =~= be_bytes(n / 256, (k - 1) as nat));
        lemma_fundamental_div_mod(n as int, 256);
    }
}

/// 256^32 is the word modulus.
pub proof fn lemma_word_bytes_bound()
    ensures
        pow(256, 32) == modulus(),
{
    lemma2_to64();
    lemma2_to64_rest();
    lemma_pow2(8);
    lemma_pow2(256);
    lemma_pow_multiplies(2, 8, 32);
    lemma_pow2_adds(64, 64);
    lemma_pow2_adds(128, 64);
    lemma_pow2_adds(192, 64);
}

/// Relies on `U256::from_big_endian`, which panics on more than 32 bytes.
#[verifier::external_body]
pub(crate) fn from_be_bytes(b: &[u8]) -> (r: U256)
    requires
        b@.len() <= 32,
    ensures
        val(r) == be_val(b@),
{
    U256::from_big_endian(b)
}

/// Relies on `U256::to_big_endian`: the 32 bytes of the word, most
/// significant first.
#[verifier::external_body]
pub(crate) fn to_be_bytes(w: U256) -> (r: Vec<u8>)
    ensures
        r@ == be_bytes(val(w), 32),
{
    let mut buf = [0u8; 32];
    w.to_big_endian(&mut buf);
    buf.to_vec()
}

/// Relies on `U256::full_mul`: the exact 512-bit product.
#[verifier::external_body]
pub(crate) fn full_product(a: U256, b: U256) -> (r: U512)
    ensures
        val512(r) == val(a) * val(b),
{
    a.full_mul(b)
}

/// Relies on `U512::from(U256)`: the same value, widened.
#[verifier::external_body]
pub(crate) fn widen(a: U256) -> (r: U512)
    ensures
        val512(r) == val(a),
{
    U512::from(a)
}

/// Relies on `U512 % U512` (`div_mod`), which panics on a zero divisor.
#[verifier::external_body]
pub(crate) fn remainder512(a: U512, b: U512) -> (r: U512)
    requires
        val512(b) != 0,
    ensures
        val512(r) == val512(a) % val512(b),
{
    a % b
}

/// The low half of a double-width word whose value fits in one word.
pub fn narrow(w: U512) -> (r: U256)
    requires
        val512(w) < modulus(),
    ensures
        val(r) == val512(w),
{
    U256([w.0[0], w.0[1], w.0[2], w.0[3]])
}

} // verus!
