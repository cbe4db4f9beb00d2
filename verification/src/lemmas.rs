//! Algebraic facts about the register model.
//!
//! The register step is GF(2)-linear, steps compose additively, and every step
//! keeps the register inside its width.  These facts carry the table-driven
//! engine, the streaming digest and the combine operation.

use vstd::prelude::*;

use crate::model::{
    byte_inject, crc_update, process_byte, step, steps, top_bit, valid_width, width_mask,
};

verus! {

/// XOR is commutative, associative, self-cancelling, with 0 as unit.
pub proof fn xor_facts(a: u64, b: u64, c: u64)
    by (bit_vector)
    ensures
        a ^ b == b ^ a,
        (a ^ b) ^ c == a ^ (b ^ c),
        (a ^ b) ^ c == (a ^ c) ^ b,
        a ^ 0 == a,
        0 ^ a == a,
        (a ^ b) ^ b == a,
        a ^ a == 0,
{
}

/// XOR of two in-width values stays in width.
pub proof fn lemma_xor_bound(w: u64, a: u64, b: u64)
    by (bit_vector)
    requires
        valid_width(w),
        a <= width_mask(w),
        b <= width_mask(w),
    ensures
        a ^ b <= width_mask(w),
{
}

/// An injected byte stays in width.
pub proof fn lemma_inject_bound(w: u64, refl: bool, b: u8)
    by (bit_vector)
    requires
        valid_width(w),
    ensures
        byte_inject(w, refl, b) <= width_mask(w),
{
}

/// One register step is a linear map over GF(2).
pub proof fn lemma_step_linear(w: u64, refl: bool, poly: u64, a: u64, b: u64)
    by (bit_vector)
    requires
        valid_width(w),
    ensures
        step(w, refl, poly, a ^ b) == step(w, refl, poly, a) ^ step(w, refl, poly, b),
{
}

/// A step maps zero to zero.
pub proof fn lemma_step_zero(w: u64, refl: bool, poly: u64)
    by (bit_vector)
    ensures
        step(w, refl, poly, 0) == 0,
{
}

/// A step keeps the register inside its width.
pub proof fn lemma_step_bound(w: u64, refl: bool, poly: u64, r: u64)
    by (bit_vector)
    requires
        valid_width(w),
        poly <= width_mask(w),
        r <= width_mask(w),
    ensures
        step(w, refl, poly, r) <= width_mask(w),
{
}

/// `n` steps form a linear map over GF(2).
pub proof fn lemma_steps_linear(w: u64, refl: bool, poly: u64, a: u64, b: u64, n: nat)
    requires
        valid_width(w),
    ensures
        steps(w, refl, poly, a ^ b, n) == steps(w, refl, poly, a, n) ^ steps(w, refl, poly, b, n),
    decreases n,
{
    if n > 0 {
        lemma_steps_linear(w, refl, poly, a, b, (n - 1) as nat);
        lemma_step_linear(
            w,
            refl,
            poly,
            steps(w, refl, poly, a, (n - 1) as nat),
            steps(w, refl, poly, b, (n - 1) as nat),
        );
    }
}

/// `n` steps map zero to zero.
pub proof fn lemma_steps_zero(w: u64, refl: bool, poly: u64, n: nat)
    ensures
        steps(w, refl, poly, 0, n) == 0,
    decreases n,
{
    if n > 0 {
        lemma_steps_zero(w, refl, poly, (n - 1) as nat);
        lemma_step_zero(w, refl, poly);
    }
}

/// Steps compose additively: m + n steps are n steps after m steps.
pub proof fn lemma_steps_add(w: u64, refl: bool, poly: u64, r: u64, m: nat, n: nat)
    ensures
        steps(w, refl, poly, r, m + n) == steps(w, refl, poly, steps(w, refl, poly, r, m), n),
    decreases n,
{
    if n > 0 {
        lemma_steps_add(w, refl, poly, r, m, (n - 1) as nat);
        assert(m + n == (m + n - 1) + 1);
    }
}

/// With the top `n` bits of the width clear, `n` steps in the
/// most-significant-bit-first orientation are a plain left shift: no step
/// ever sees a set top bit, so the polynomial never enters.
pub proof fn lemma_low_shift_msb(w: u64, poly: u64, r: u64, n: u64)
    requires
        valid_width(w),
        poly <= width_mask(w),
        1 <= n <= 8,
        r <= width_mask(w) >> n,
    ensures
        steps(w, false, poly, r, n as nat) == (r << n) & width_mask(w),
    decreases n,
{
    if n == 1 {
        assert((w == 32 || w == 64) && r <= (width_mask(w) >> 1) ==> (r & top_bit(w)) == 0 && (r
            << 1u64) & width_mask(w) == (r << 1) & width_mask(w)) by (bit_vector);
        assert(steps(w, false, poly, r, 0) == r);
        assert(steps(w, false, poly, r, 1) == step(w, false, poly, r));
        assert(step(w, false, poly, r) == (r << 1) & width_mask(w));
        assert((r << n) & width_mask(w) == (r << 1u64) & width_mask(w));
    } else {
        assert((w == 32 || w == 64) && 2 <= n <= 8 && r <= (width_mask(w) >> n) ==> r <= (
        width_mask(w) >> ((n - 1) as u64))) by (bit_vector);
        lemma_low_shift_msb(w, poly, r, (n - 1) as u64);
        let s = steps(w, false, poly, r, (n - 1) as nat);
        assert(s == (r << ((n - 1) as u64)) & width_mask(w));
        assert((w == 32 || w == 64) && 2 <= n <= 8 && r <= (width_mask(w) >> n) ==> ((((r << ((n
            - 1) as u64)) & width_mask(w)) & top_bit(w)) == 0 && ((((r << ((n - 1) as u64))
            & width_mask(w)) << 1) & width_mask(w)) == (r << n) & width_mask(w))) by (bit_vector);
        assert(steps(w, false, poly, r, n as nat) == step(w, false, poly, s));
        assert(step(w, false, poly, s) == (s << 1) & width_mask(w));
    }
}

/// With the low `n` bits clear, `n` steps in the reflected orientation are a
/// plain right shift: no step ever sees a set low bit.
pub proof fn lemma_low_shift_refl(w: u64, poly: u64, r: u64, n: u64)
    requires
        valid_width(w),
        poly <= width_mask(w),
        1 <= n <= 8,
        r & (((1u64 << n) - 1) as u64) == 0,
    ensures
        steps(w, true, poly, r, n as nat) == r >> n,
    decreases n,
{
    if n == 1 {
        assert(r & (((1u64 << 1u64) - 1) as u64) == 0 ==> r & 1 == 0 && r >> 1u64 == r >> 1)
            by (bit_vector);
        assert(steps(w, true, poly, r, 0) == r);
        assert(steps(w, true, poly, r, 1) == step(w, true, poly, r));
        assert(step(w, true, poly, r) == r >> 1);
        assert(r >> n == r >> 1u64);
    } else {
        assert(2 <= n <= 8 && r & (((1u64 << n) - 1) as u64) == 0 ==> r & (((1u64 << ((n - 1)
            as u64)) - 1) as u64) == 0) by (bit_vector);
        lemma_low_shift_refl(w, poly, r, (n - 1) as u64);
        let s = steps(w, true, poly, r, (n - 1) as nat);
        assert(s == r >> ((n - 1) as u64));
        assert(2 <= n <= 8 && r & (((1u64 << n) - 1) as u64) == 0 ==> ((r >> ((n - 1) as u64)) & 1)
            == 0 && ((r >> ((n - 1) as u64)) >> 1) == r >> n) by (bit_vector);
        assert(steps(w, true, poly, r, n as nat) == step(w, true, poly, s));
        assert(step(w, true, poly, s) == s >> 1);
    }
}

/// Absorbing a concatenation is absorbing the parts in order.
pub proof fn lemma_update_append(w: u64, refl: bool, poly: u64, r: u64, s1: Seq<u8>, s2: Seq<u8>)
    ensures
        crc_update(w, refl, poly, r, s1 + s2) == crc_update(
            w,
            refl,
            poly,
            crc_update(w, refl, poly, r, s1),
            s2,
        ),
    decreases s1.len(),
{
    if s1.len() == 0 {
        assert(s1 + s2 =~= s2);
    } else {
        assert((s1 + s2)[0] == s1[0]);
        assert((s1 + s2).skip(1) =~= s1.skip(1) + s2);
        lemma_update_append(w, refl, poly, process_byte(w, refl, poly, r, s1[0]), s1.skip(1), s2);
    }
}

/// Absorbing one more byte at the back is one more byte step.
pub proof fn lemma_update_snoc(w: u64, refl: bool, poly: u64, r: u64, s: Seq<u8>, b: u8)
    ensures
        crc_update(w, refl, poly, r, s.push(b)) == process_byte(
            w,
            refl,
            poly,
            crc_update(w, refl, poly, r, s),
            b,
        ),
{
    let one = seq![b];
    assert(s.push(b) =~= s + one);
    lemma_update_append(w, refl, poly, r, s, one);
    let r1 = crc_update(w, refl, poly, r, s);
    assert(one.skip(1) =~= Seq::<u8>::empty());
    let r2 = process_byte(w, refl, poly, r1, b);
    assert(one[0] == b);
    assert(crc_update(w, refl, poly, r1, one) == crc_update(w, refl, poly, r2, one.skip(1)));
    assert(crc_update(w, refl, poly, r2, one.skip(1)) == r2);
}

/// Absorbing data is an affine map of the starting register: a XOR
/// perturbation of the start travels through as a pure shift of itself.
pub proof fn lemma_update_affine(w: u64, refl: bool, poly: u64, r: u64, d: u64, s: Seq<u8>)
    requires
        valid_width(w),
    ensures
        crc_update(w, refl, poly, r ^ d, s) == crc_update(w, refl, poly, r, s) ^ steps(
            w,
            refl,
            poly,
            d,
            8 * s.len(),
        ),
    decreases s.len(),
{
    if s.len() == 0 {
    } else {
        let inj = byte_inject(w, refl, s[0]);
        xor_facts(r, d, inj);
        assert((r ^ d) ^ inj == (r ^ inj) ^ d);
        lemma_steps_linear(w, refl, poly, r ^ inj, d, 8);
        let r1 = process_byte(w, refl, poly, r, s[0]);
        let d1 = steps(w, refl, poly, d, 8);
        assert(process_byte(w, refl, poly, r ^ d, s[0]) == r1 ^ d1);
        lemma_update_affine(w, refl, poly, r1, d1, s.skip(1));
        lemma_steps_add(w, refl, poly, d, 8, (8 * (s.len() - 1)) as nat);
        assert(8 + 8 * (s.len() - 1) == 8 * s.len());
    }
}

/// Absorbing data keeps the register inside its width.
pub proof fn lemma_update_bound(w: u64, refl: bool, poly: u64, r: u64, s: Seq<u8>)
    requires
        valid_width(w),
        poly <= width_mask(w),
        r <= width_mask(w),
    ensures
        crc_update(w, refl, poly, r, s) <= width_mask(w),
    decreases s.len(),
{
    if s.len() > 0 {
        lemma_inject_bound(w, refl, s[0]);
        lemma_xor_bound(w, r, byte_inject(w, refl, s[0]));
        lemma_steps_bound(w, refl, poly, r ^ byte_inject(w, refl, s[0]), 8);
        lemma_update_bound(w, refl, poly, process_byte(w, refl, poly, r, s[0]), s.skip(1));
    }
}

/// `n` steps keep the register inside its width.
pub proof fn lemma_steps_bound(w: u64, refl: bool, poly: u64, r: u64, n: nat)
    requires
        valid_width(w),
        poly <= width_mask(w),
        r <= width_mask(w),
    ensures
        steps(w, refl, poly, r, n) <= width_mask(w),
    decreases n,
{
    if n > 0 {
        lemma_steps_bound(w, refl, poly, r, (n - 1) as nat);
        lemma_step_bound(w, refl, poly, steps(w, refl, poly, r, (n - 1) as nat));
    }
}

} // verus!
