//! Facts about bit reversal.
//!
//! `reflect_bits(x, n)` reverses the low `n` bits of `x`.  Its bit-level
//! characterization and the involution law below justify the output transform
//! of reflected algorithms and its inversion inside the combine operation.

use vstd::prelude::*;

use crate::model::{low_mask, reflect_bits};

verus! {

/// The reversal of `n` bits fits in `n` bits.
pub proof fn lemma_reflect_bound(x: u64, n: nat)
    requires
        n <= 64,
    ensures
        reflect_bits(x, n) <= low_mask(n),
    decreases n,
{
    if n == 0 {
        assert((1u64 << 0u64) - 1 == 0) by (bit_vector);
    } else {
        let nm1 = (n - 1) as u64;
        let r2 = reflect_bits(x >> 1, (n - 1) as nat);
        lemma_reflect_bound(x >> 1, (n - 1) as nat);
        if n == 64 {
            assert(r2 <= ((1u64 << 63u64) - 1) as u64 ==> (((x & 1) << 63u64) | r2)
                <= 0xffff_ffff_ffff_ffffu64) by (bit_vector);
        } else {
            assert(nm1 <= 62 && r2 <= ((1u64 << nm1) - 1) as u64 ==> (((x & 1) << nm1) | r2) <= ((1u64 << ((
            nm1 + 1) as u64)) - 1) as u64) by (bit_vector);
        }
    }
}

/// Bit `j` of the reversal is bit `n - 1 - j` of the original.
pub proof fn lemma_reflect_bit(x: u64, n: nat, j: nat)
    requires
        n <= 64,
        j < n,
    ensures
        (reflect_bits(x, n) >> (j as u64)) & 1 == (x >> ((n - 1 - j) as u64)) & 1,
    decreases n,
{
    let nm1 = (n - 1) as u64;
    let jj = j as u64;
    let r2 = reflect_bits(x >> 1, (n - 1) as nat);
    lemma_reflect_bound(x >> 1, (n - 1) as nat);
    if j == n - 1 {
        if n == 64 {
            assert(r2 <= ((1u64 << 63u64) - 1) as u64 ==> ((((x & 1) << 63u64) | r2) >> 63u64) & 1 == (x
                >> 0u64) & 1) by (bit_vector);
        } else {
            assert(nm1 <= 62 && r2 <= ((1u64 << nm1) - 1) as u64 ==> ((((x & 1) << nm1) | r2) >> nm1) & 1
                == (x >> 0u64) & 1) by (bit_vector);
        }
    } else {
        lemma_reflect_bit(x >> 1, (n - 1) as nat, j);
        assert(jj < nm1 && nm1 <= 63 ==> ((((x & 1) << nm1) | r2) >> jj) & 1 == (r2 >> jj) & 1)
            by (bit_vector);
        let k = (n - 2 - j) as u64;
        assert(k <= 62 ==> ((x >> 1) >> k) & 1 == (x >> ((k + 1) as u64)) & 1) by (bit_vector);
    }
}

/// A value inside `low_mask(n)` has only zeros at bit `n` and above.
pub proof fn lemma_high_bits_zero(v: u64, n: u64, j: u64)
    requires
        n <= 63,
        n <= j < 64,
        v <= ((1u64 << n) - 1) as u64,
    ensures
        (v >> j) & 1 == 0,
{
    assert(n <= 63 && n <= j < 64 && v <= ((1u64 << n) - 1) as u64 ==> (v >> j) & 1 == 0) by (bit_vector);
}

/// Two values with the same 64 bits are equal.
pub proof fn lemma_bits_ext(a: u64, b: u64)
    requires
        forall|j: u64| j < 64 ==> #[trigger] ((a >> j) & 1) == (b >> j) & 1,
    ensures
        a == b,
{
    lemma_bits_ext_rec(a, b, 64);
    assert(a & 0xffff_ffff_ffff_ffffu64 == a && b & 0xffff_ffff_ffff_ffffu64 == b)
        by (bit_vector);
}

proof fn lemma_bits_ext_rec(a: u64, b: u64, k: u64)
    requires
        k <= 64,
        forall|j: u64| j < k ==> #[trigger] ((a >> j) & 1) == (b >> j) & 1,
    ensures
        k < 64 ==> a & (((1u64 << k) - 1) as u64) == b & (((1u64 << k) - 1) as u64),
        k == 64 ==> a & 0xffff_ffff_ffff_ffffu64 == b & 0xffff_ffff_ffff_ffffu64,
    decreases k,
{
    if k == 0 {
        assert(a & (((1u64 << 0u64) - 1) as u64) == 0 && b & (((1u64 << 0u64) - 1) as u64) == 0) by (bit_vector);
    } else {
        let km1 = (k - 1) as u64;
        lemma_bits_ext_rec(a, b, km1);
        assert((a >> km1) & 1 == (b >> km1) & 1);
        if k == 64 {
            assert(km1 == 63 && a & (((1u64 << km1) - 1) as u64) == b & (((1u64 << km1) - 1) as u64) && (a >> km1)
                & 1 == (b >> km1) & 1 ==> a & 0xffff_ffff_ffff_ffffu64 == b
                & 0xffff_ffff_ffff_ffffu64) by (bit_vector);
        } else {
            assert(km1 <= 62 && a & (((1u64 << km1) - 1) as u64) == b & (((1u64 << km1) - 1) as u64) && (a >> km1)
                & 1 == (b >> km1) & 1 ==> a & (((1u64 << ((km1 + 1) as u64)) - 1) as u64) == b & (((1u64
                << ((km1 + 1) as u64)) - 1) as u64)) by (bit_vector);
            assert(k == km1 + 1);
        }
    }
}

/// Reverse the low `n` bits of `x`, as the model defines it.
pub fn reflect_low(x: u64, n: u64) -> (r: u64)
    requires
        n <= 64,
    ensures
        r == reflect_bits(x, n as nat),
    decreases n,
{
    if n == 0 {
        0
    } else {
        ((x & 1) << (n - 1)) | reflect_low(x >> 1, n - 1)
    }
}

/// Reversing the low `n` bits twice gives the original back.
pub proof fn lemma_reflect_involute(x: u64, n: nat)
    requires
        n <= 64,
        x <= low_mask(n),
    ensures
        reflect_bits(reflect_bits(x, n), n) == x,
{
    let y = reflect_bits(x, n);
    let z = reflect_bits(y, n);
    lemma_reflect_bound(x, n);
    lemma_reflect_bound(y, n);
    lemma_reflect_bound(z, n);
    assert forall|j: u64| j < 64 implies #[trigger] ((z >> j) & 1) == (x >> j) & 1 by {
        if j < n {
            lemma_reflect_bit(y, n, j as nat);
            lemma_reflect_bit(x, n, (n - 1 - j) as nat);
            assert(n - 1 - (n - 1 - j) == j as nat);
        } else {
            lemma_high_bits_zero(z, n as u64, j);
            lemma_high_bits_zero(x, n as u64, j);
        }
    }
    lemma_bits_ext(z, x);
}

} // verus!
