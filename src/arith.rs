//! Numeric meaning of the arithmetic, comparison and bitwise opcodes.
//!
//! Each binary operation takes `a`, the top of the stack, and `b`, the
//! element below it.
use vstd::prelude::*;
use vstd::arithmetic::div_mod::*;
use vstd::arithmetic::power2::*;
use primitive_types::U256;
use crate::word::{
    half_modulus, lemma_limbs_of_val, lemma_val_bound, less_than, limb_base, limb_of, limbs_value,
    modulus, quotient, remainder, sign_bit_word, signed, val, wrap, wrapping_add, wrapping_mul,
    wrapping_pow, wrapping_sub, zero, from_u64, full_product, widen, remainder512, narrow,
    small_value_u32, max_word, shift_left, shift_right, bit_and, bit_or, bit_xor, bit_not,
};

verus! {

pub open spec fn bool_word(c: bool) -> nat {
    if c { 1 } else { 0 }
}

pub open spec fn abs(i: int) -> nat {
    if i < 0 { (-i) as nat } else { i as nat }
}

pub open spec fn add_spec(a: nat, b: nat) -> nat {
    (a + b) % modulus()
}

pub open spec fn mul_spec(a: nat, b: nat) -> nat {
    (a * b) % modulus()
}

pub open spec fn sub_spec(a: nat, b: nat) -> nat {
    wrap(a - b)
}

pub open spec fn div_spec(a: nat, b: nat) -> nat {
    if b == 0 { 0 } else { a / b }
}

pub open spec fn mod_spec(a: nat, b: nat) -> nat {
    if b == 0 { 0 } else { a % b }
}

/// Signed division truncating toward zero; the quotient of the smallest
/// value by -1 wraps back to the smallest value.
pub open spec fn sdiv_spec(a: nat, b: nat) -> nat {
    if b == 0 {
        0
    } else {
        let q = abs(signed(a)) / abs(signed(b));
        if (signed(a) < 0) != (signed(b) < 0) { wrap(-q) } else { wrap(q as int) }
    }
}

/// Signed remainder; its sign is the dividend's.
pub open spec fn smod_spec(a: nat, b: nat) -> nat {
    if b == 0 {
        0
    } else {
        let r = abs(signed(a)) % abs(signed(b));
        if signed(a) < 0 { wrap(-r) } else { wrap(r as int) }
    }
}

pub open spec fn addmod_spec(a: nat, b: nat, n: nat) -> nat {
    if n == 0 { 0 } else { (a + b) % n }
}

pub open spec fn mulmod_spec(a: nat, b: nat, n: nat) -> nat {
    if n == 0 { 0 } else { (a * b) % n }
}

pub open spec fn exp_spec(a: nat, e: nat) -> nat {
    (vstd::arithmetic::power::pow(a as int, e) % (modulus() as int)) as nat
}

/// Sign extension of `x` from its low `b + 1` bytes.
pub open spec fn signextend_spec(b: nat, x: nat) -> nat {
    if b >= 31 {
        x
    } else {
        let k = (8 * (b + 1)) as nat;
        let low = x % pow2(k);
        if low >= pow2((k - 1) as nat) { (low + modulus() - pow2(k)) as nat } else { low }
    }
}

pub open spec fn lt_spec(a: nat, b: nat) -> nat {
    bool_word(a < b)
}

pub open spec fn gt_spec(a: nat, b: nat) -> nat {
    bool_word(a > b)
}

pub open spec fn slt_spec(a: nat, b: nat) -> nat {
    bool_word(signed(a) < signed(b))
}

pub open spec fn sgt_spec(a: nat, b: nat) -> nat {
    bool_word(signed(a) > signed(b))
}

pub open spec fn eq_spec(a: nat, b: nat) -> nat {
    bool_word(a == b)
}

pub open spec fn iszero_spec(a: nat) -> nat {
    bool_word(a == 0)
}

pub open spec fn and_spec(a: nat, b: nat) -> nat {
    limbs_value(
        limb_of(a, 0) & limb_of(b, 0),
        limb_of(a, 1) & limb_of(b, 1),
        limb_of(a, 2) & limb_of(b, 2),
        limb_of(a, 3) & limb_of(b, 3),
    )
}

pub open spec fn or_spec(a: nat, b: nat) -> nat {
    limbs_value(
        limb_of(a, 0) | limb_of(b, 0),
        limb_of(a, 1) | limb_of(b, 1),
        limb_of(a, 2) | limb_of(b, 2),
        limb_of(a, 3) | limb_of(b, 3),
    )
}

pub open spec fn xor_spec(a: nat, b: nat) -> nat {
    limbs_value(
        limb_of(a, 0) ^ limb_of(b, 0),
        limb_of(a, 1) ^ limb_of(b, 1),
        limb_of(a, 2) ^ limb_of(b, 2),
        limb_of(a, 3) ^ limb_of(b, 3),
    )
}

/// Bitwise complement over 256 bits.
pub open spec fn not_spec(a: nat) -> nat {
    (modulus() - 1 - a) as nat
}

/// Byte `i` of `x`, counted from the most significant byte.
pub open spec fn byte_spec(i: nat, x: nat) -> nat {
    if i >= 32 { 0 } else { (x / pow2((8 * (31 - i)) as nat)) % 256 }
}

pub open spec fn shl_spec(s: nat, x: nat) -> nat {
    if s >= 256 { 0 } else { (x * pow2(s)) % modulus() }
}

pub open spec fn shr_spec(s: nat, x: nat) -> nat {
    if s >= 256 { 0 } else { x / pow2(s) }
}

/// Arithmetic right shift: the signed reading divided by 2^s, rounded down.
pub open spec fn sar_spec(s: nat, x: nat) -> nat {
    if s >= 256 {
        if signed(x) < 0 { (modulus() - 1) as nat } else { 0 }
    } else {
        wrap(signed(x) / (pow2(s) as int))
    }
}

pub proof fn lemma_pow2_256()
    ensures
        pow2(256) == modulus(),
        pow2(255) == half_modulus(),
        pow2(64) == limb_base(),
{
    lemma2_to64();
    lemma2_to64_rest();
    lemma_pow2_adds(64, 64);
    lemma_pow2_adds(128, 64);
    lemma_pow2_adds(192, 63);
    lemma_pow2_adds(255, 1);
}

proof fn lemma_wrap_small(i: int)
    requires
        0 <= i < modulus(),
    ensures
        wrap(i) == i,
{
    lemma_small_mod(i as nat, modulus());
}

proof fn lemma_wrap_neg(i: int)
    requires
        0 < i <= modulus(),
    ensures
        wrap(-i) == modulus() - i,
{
    lemma_fundamental_div_mod_converse(-i, modulus() as int, -1, modulus() - i);
}

proof fn lemma_mod_once(x: int, m: int)
    requires
        0 < m,
        0 <= x < 2 * m,
    ensures
        x % m == (if x < m { x } else { x - m }),
{
    if x < m {
        lemma_fundamental_div_mod_converse(x, m, 0, x);
    } else {
        lemma_fundamental_div_mod_converse(x, m, 1, x - m);
    }
}

proof fn lemma_pow2_below_modulus(k: nat)
    requires
        k < 256,
    ensures
        0 < pow2(k) < modulus(),
{
    lemma_pow2_256();
    lemma_pow2_pos(k);
    lemma_pow2_strictly_increases(k, 256);
}

/// Rounding down a negative quotient: `(-m - 1) / p == -(m / p) - 1`.
proof fn lemma_floor_div_negative(m: int, p: int)
    requires
        0 <= m,
        0 < p,
    ensures
        (-m - 1) / p == -(m / p) - 1,
{
    lemma_fundamental_div_mod(m, p);
    lemma_mod_bound(m, p);
    let q = m / p;
    assert((-q - 1) * p == -(p * q) - p) by (nonlinear_arith);
    lemma_fundamental_div_mod_converse(-m - 1, p, -(m / p) - 1, p - 1 - m % p);
}

/// Whether a word is zero, read from its limbs.
pub fn is_zero(w: U256) -> (r: bool)
    ensures
        r == (val(w) == 0),
{
    w.0[0] == 0 && w.0[1] == 0 && w.0[2] == 0 && w.0[3] == 0
}

/// The low limb of a word known to be below 2^64.
pub fn small_value(w: U256) -> (r: u64)
    requires
        val(w) < limb_base(),
    ensures
        r == val(w),
{
    w.0[0]
}

pub fn op_add(a: U256, b: U256) -> (r: U256)
    ensures
        val(r) == add_spec(val(a), val(b)),
{
    wrapping_add(a, b)
}

pub fn op_mul(a: U256, b: U256) -> (r: U256)
    ensures
        val(r) == mul_spec(val(a), val(b)),
{
    wrapping_mul(a, b)
}

pub fn op_sub(a: U256, b: U256) -> (r: U256)
    ensures
        val(r) == sub_spec(val(a), val(b)),
{
    wrapping_sub(a, b)
}

pub fn op_div(a: U256, b: U256) -> (r: U256)
    ensures
        val(r) == div_spec(val(a), val(b)),
{
    if is_zero(b) { zero() } else { quotient(a, b) }
}

pub fn op_mod(a: U256, b: U256) -> (r: U256)
    ensures
        val(r) == mod_spec(val(a), val(b)),
{
    if is_zero(b) { zero() } else { remainder(a, b) }
}

/// Whether the signed reading of `w` is negative.
pub fn is_negative(w: U256) -> (r: bool)
    ensures
        r == (signed(val(w)) < 0),
{
    !less_than(w, sign_bit_word())
}

/// The magnitude of the signed reading of `w`.
pub fn magnitude(w: U256) -> (r: U256)
    ensures
        val(r) == abs(signed(val(w))),
{
    proof {
        lemma_val_bound(w);
    }
    if is_negative(w) {
        let r = wrapping_sub(zero(), w);
        proof {
            lemma_wrap_neg(val(w) as int);
        }
        r
    } else {
        w
    }
}

/// The word whose value is `-q` wrapped when `negate` holds, else `q`.
fn with_sign(q: U256, negate: bool) -> (r: U256)
    ensures
        val(r) == (if negate { wrap(-val(q)) } else { wrap(val(q) as int) }),
{
    proof {
        lemma_val_bound(q);
        lemma_wrap_small(val(q) as int);
    }
    if negate { wrapping_sub(zero(), q) } else { q }
}

pub fn op_sdiv(a: U256, b: U256) -> (r: U256)
    ensures
        val(r) == sdiv_spec(val(a), val(b)),
{
    if is_zero(b) {
        return zero();
    }
    let q = quotient(magnitude(a), magnitude(b));
    with_sign(q, is_negative(a) != is_negative(b))
}

pub fn op_smod(a: U256, b: U256) -> (r: U256)
    ensures
        val(r) == smod_spec(val(a), val(b)),
{
    if is_zero(b) {
        return zero();
    }
    let m = remainder(magnitude(a), magnitude(b));
    with_sign(m, is_negative(a))
}

pub fn op_addmod(a: U256, b: U256, n: U256) -> (r: U256)
    ensures
        val(r) == addmod_spec(val(a), val(b), val(n)),
{
    if is_zero(n) {
        return zero();
    }
    let x = remainder(a, n);
    let y = remainder(b, n);
    let room = wrapping_sub(n, y);
    proof {
        lemma_val_bound(n);
        lemma_wrap_small(val(n) - val(y));
        lemma_add_mod_noop(val(a) as int, val(b) as int, val(n) as int);
        lemma_mod_once((val(x) + val(y)) as int, val(n) as int);
    }
    if less_than(x, room) {
        let r = wrapping_add(x, y);
        proof {
            lemma_small_mod((val(x) + val(y)) as nat, modulus());
        }
        r
    } else {
        let r = wrapping_sub(x, room);
        proof {
            lemma_wrap_small(val(x) - val(room));
        }
        r
    }
}

pub fn op_exp(a: U256, e: U256) -> (r: U256)
    ensures
        val(r) == exp_spec(val(a), val(e)),
{
    wrapping_pow(a, e)
}

pub fn op_lt(a: U256, b: U256) -> (r: U256)
    ensures
        val(r) == lt_spec(val(a), val(b)),
{
    from_u64(if less_than(a, b) { 1 } else { 0 })
}

pub fn op_gt(a: U256, b: U256) -> (r: U256)
    ensures
        val(r) == gt_spec(val(a), val(b)),
{
    from_u64(if less_than(b, a) { 1 } else { 0 })
}

/// The word moved so that unsigned order matches signed order.
fn biased(w: U256) -> (r: U256)
    ensures
        val(r) == signed(val(w)) + half_modulus(),
{
    proof {
        lemma_val_bound(w);
        lemma_mod_once((val(w) + half_modulus()) as int, modulus() as int);
    }
    wrapping_add(w, sign_bit_word())
}

pub fn op_slt(a: U256, b: U256) -> (r: U256)
    ensures
        val(r) == slt_spec(val(a), val(b)),
{
    from_u64(if less_than(biased(a), biased(b)) { 1 } else { 0 })
}

pub fn op_sgt(a: U256, b: U256) -> (r: U256)
    ensures
        val(r) == sgt_spec(val(a), val(b)),
{
    from_u64(if less_than(biased(b), biased(a)) { 1 } else { 0 })
}

pub fn op_eq(a: U256, b: U256) -> (r: U256)
    ensures
        val(r) == eq_spec(val(a), val(b)),
{
    from_u64(if !less_than(a, b) && !less_than(b, a) { 1 } else { 0 })
}

pub fn op_iszero(a: U256) -> (r: U256)
    ensures
        val(r) == iszero_spec(val(a)),
{
    from_u64(if is_zero(a) { 1 } else { 0 })
}

pub fn op_and(a: U256, b: U256) -> (r: U256)
    ensures
        val(r) == and_spec(val(a), val(b)),
{
    proof {
        lemma_limbs_of_val(a);
        lemma_limbs_of_val(b);
    }
    bit_and(a, b)
}

pub fn op_or(a: U256, b: U256) -> (r: U256)
    ensures
        val(r) == or_spec(val(a), val(b)),
{
    proof {
        lemma_limbs_of_val(a);
        lemma_limbs_of_val(b);
    }
    bit_or(a, b)
}

pub fn op_xor(a: U256, b: U256) -> (r: U256)
    ensures
        val(r) == xor_spec(val(a), val(b)),
{
    proof {
        lemma_limbs_of_val(a);
        lemma_limbs_of_val(b);
    }
    bit_xor(a, b)
}

pub fn op_not(a: U256) -> (r: U256)
    ensures
        val(r) == not_spec(val(a)),
{
    let r = bit_not(a);
    proof {
        let (a0, a1, a2, a3) = (a.0[0], a.0[1], a.0[2], a.0[3]);
        assert(!a0 == 0xffff_ffff_ffff_ffffu64 - a0) by (bit_vector);
        assert(!a1 == 0xffff_ffff_ffff_ffffu64 - a1) by (bit_vector);
        assert(!a2 == 0xffff_ffff_ffff_ffffu64 - a2) by (bit_vector);
        assert(!a3 == 0xffff_ffff_ffff_ffffu64 - a3) by (bit_vector);
    }
    r
}

pub fn op_mulmod(a: U256, b: U256, n: U256) -> (r: U256)
    ensures
        val(r) == mulmod_spec(val(a), val(b), val(n)),
{
    if is_zero(n) {
        return zero();
    }
    let m = remainder512(full_product(a, b), widen(n));
    proof {
        lemma_val_bound(n);
        lemma_mod_bound((val(a) * val(b)) as int, val(n) as int);
    }
    narrow(m)
}

pub fn op_byte(i: U256, x: U256) -> (r: U256)
    ensures
        val(r) == byte_spec(val(i), val(x)),
{
    if !less_than(i, from_u64(32)) {
        return zero();
    }
    let k = small_value_u32(i);
    let shifted = shift_right(x, 8 * (31 - k));
    remainder(shifted, from_u64(256))
}

pub fn op_shl(s: U256, x: U256) -> (r: U256)
    ensures
        val(r) == shl_spec(val(s), val(x)),
{
    if !less_than(s, from_u64(256)) {
        return zero();
    }
    shift_left(x, small_value_u32(s))
}

pub fn op_shr(s: U256, x: U256) -> (r: U256)
    ensures
        val(r) == shr_spec(val(s), val(x)),
{
    if !less_than(s, from_u64(256)) {
        return zero();
    }
    shift_right(x, small_value_u32(s))
}

pub fn op_sar(s: U256, x: U256) -> (r: U256)
    ensures
        val(r) == sar_spec(val(s), val(x)),
{
    let negative = is_negative(x);
    proof {
        lemma_val_bound(x);
    }
    if !less_than(s, from_u64(256)) {
        return if negative { max_word() } else { zero() };
    }
    let k = small_value_u32(s);
    proof {
        lemma_pow2_below_modulus(k as nat);
    }
    if negative {
        let flipped = op_not(x);
        let r = op_not(shift_right(flipped, k));
        proof {
            let m = val(flipped) as int;
            let p = pow2(k as nat) as int;
            lemma_floor_div_negative(m, p);
            assert(signed(val(x)) == -m - 1);
            lemma_div_pos_is_pos(m, p);
            lemma_div_nonincreasing(m, p);
            lemma_wrap_neg(m / p + 1);
        }
        r
    } else {
        let r = shift_right(x, k);
        proof {
            lemma_div_pos_is_pos(val(x) as int, pow2(k as nat) as int);
            lemma_div_nonincreasing(val(x) as int, pow2(k as nat) as int);
            lemma_wrap_small(val(x) as int / pow2(k as nat) as int);
        }
        r
    }
}

pub fn op_signextend(b: U256, x: U256) -> (r: U256)
    ensures
        val(r) == signextend_spec(val(b), val(x)),
{
    if !less_than(b, from_u64(31)) {
        return x;
    }
    let k = 8 * (small_value_u32(b) + 1);
    proof {
        lemma_pow2_below_modulus(k as nat);
        lemma_pow2_below_modulus((k - 1) as nat);
        lemma_small_mod(pow2(k as nat), modulus());
        lemma_small_mod(pow2((k - 1) as nat), modulus());
    }
    let p = shift_left(from_u64(1), k);
    let half = shift_left(from_u64(1), k - 1);
    let low = remainder(x, p);
    proof {
        lemma_mod_bound(val(x) as int, val(p) as int);
    }
    if less_than(low, half) {
        low
    } else {
        let fill = wrapping_sub(zero(), p);
        proof {
            lemma_wrap_neg(val(p) as int);
        }
        let r = wrapping_add(low, fill);
        proof {
            lemma_small_mod((val(low) + val(fill)) as nat, modulus());
        }
        r
    }
}

} // verus!
