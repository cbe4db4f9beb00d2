//! Combining independently computed checksums.
//!
//! Shifting a register forward by `8 * len` steps is a GF(2)-linear map.  It
//! is represented here by the images of the basis registers (one `u64` per
//! bit of the width), applied by XORing the images of a value's set bits, and
//! raised to powers by repeated squaring: logarithmic in `len`, reading no
//! data.  The public operation merges two finalized checksums into the
//! checksum of the concatenated input.

use vstd::arithmetic::power2::{lemma2_to64, lemma_pow2_adds, pow2};
use vstd::bits::{lemma_u64_pow2_no_overflow, lemma_u64_shl_is_mul};
use vstd::prelude::*;

use crate::engine::mask_for;
use crate::lemmas::{lemma_steps_add, lemma_steps_bound, lemma_steps_linear, lemma_steps_zero};
use crate::model::{low_mask, steps, valid_width, width_mask};
use crate::params::{standard_params, CrcAlgorithm, CrcParams};

verus! {

/// XOR of the images `m[j]` of the bits `j < k` that are set in `v`.
pub open spec fn apply_bits(m: Seq<u64>, v: u64, k: nat) -> u64
    decreases k,
{
    if k == 0 {
        0
    } else {
        apply_bits(m, v, (k - 1) as nat) ^ (if (v >> ((k - 1) as u64)) & 1 == 1 {
            m[k - 1]
        } else {
            0
        })
    }
}

/// A matrix `m` represents `n` register steps: entry `j` is the image of the
/// basis register with only bit `j` set.
pub open spec fn represents(m: Seq<u64>, w: u64, refl: bool, poly: u64, n: nat) -> bool {
    &&& m.len() == w
    &&& forall|j: int| 0 <= j < w ==> m[j] == steps(w, refl, poly, 1u64 << (j as u64), n)
}

/// Applying a matrix that represents `n` steps to the low `k` bits of `v`
/// gives `n` steps of those bits.
proof fn lemma_apply_bits_steps(
    m: Seq<u64>,
    w: u64,
    refl: bool,
    poly: u64,
    n: nat,
    v: u64,
    k: u64,
)
    requires
        valid_width(w),
        represents(m, w, refl, poly, n),
        k <= w,
    ensures
        apply_bits(m, v, k as nat) == steps(w, refl, poly, v & low_mask(k as nat), n),
    decreases k,
{
    if k == 0 {
        assert(v & (((1u64 << 0u64) - 1) as u64) == 0) by (bit_vector);
        lemma_steps_zero(w, refl, poly, n);
    } else {
        let km1 = (k - 1) as u64;
        lemma_apply_bits_steps(m, w, refl, poly, n, v, km1);
        let mk = low_mask(k as nat);
        let mkm1 = low_mask(km1 as nat);
        if k == 64 {
            assert((v >> km1) & 1 == 1 ==> v & mk == (v & mkm1) ^ (1u64 << km1)) by (bit_vector)
                requires
                    km1 == 63,
                    mk == 0xffff_ffff_ffff_ffffu64,
                    mkm1 == ((1u64 << km1) - 1) as u64,
            ;
            assert((v >> km1) & 1 != 1 ==> v & mk == v & mkm1) by (bit_vector)
                requires
                    km1 == 63,
                    mk == 0xffff_ffff_ffff_ffffu64,
                    mkm1 == ((1u64 << km1) - 1) as u64,
            ;
        } else {
            assert((v >> km1) & 1 == 1 ==> v & mk == (v & mkm1) ^ (1u64 << km1)) by (bit_vector)
                requires
                    km1 <= 62,
                    mk == ((1u64 << ((km1 + 1) as u64)) - 1) as u64,
                    mkm1 == ((1u64 << km1) - 1) as u64,
            ;
            assert((v >> km1) & 1 != 1 ==> v & mk == v & mkm1) by (bit_vector)
                requires
                    km1 <= 62,
                    mk == ((1u64 << ((km1 + 1) as u64)) - 1) as u64,
                    mkm1 == ((1u64 << km1) - 1) as u64,
            ;
        }
        if (v >> km1) & 1 == 1 {
            lemma_steps_linear(w, refl, poly, v & mkm1, 1u64 << km1, n);
        } else {
            crate::lemmas::xor_facts(apply_bits(m, v, km1 as nat), 0, 0);
        }
    }
}

/// A whole in-width value is its own low `w` bits.
proof fn lemma_whole_value(w: u64, v: u64)
    requires
        valid_width(w),
        v <= width_mask(w),
    ensures
        v & low_mask(w as nat) == v,
        v & width_mask(w) == v,
{
    crate::params::lemma_low_mask_width(w);
    assert(v <= width_mask(w) ==> v & width_mask(w) == v) by (bit_vector)
        requires
            w == 32 || w == 64,
    ;
}

/// Apply a matrix to a register: XOR the images of its set bits.
fn apply_matrix(m: &Vec<u64>, w: u64, v: u64) -> (r: u64)
    requires
        valid_width(w),
        m@.len() == w,
    ensures
        r == apply_bits(m@, v, w as nat),
{
    let mut acc: u64 = 0;
    let mut j: usize = 0;
    while j < m.len()
        invariant
            j <= m@.len() == w,
            valid_width(w),
            acc == apply_bits(m@, v, j as nat),
        decreases m@.len() - j,
    {
        if (v >> (j as u64)) & 1 == 1 {
            acc = acc ^ m[j];
        } else {
            proof {
                crate::lemmas::xor_facts(acc, 0, 0);
            }
        }
        j = j + 1;
    }
    acc
}

/// The matrix of eight register steps, built basis vector by basis vector.
fn op_for_byte(w: u64, refl: bool, poly: u64) -> (m: Vec<u64>)
    requires
        valid_width(w),
        poly <= width_mask(w),
    ensures
        represents(m@, w, refl, poly, 8),
{
    let mut m: Vec<u64> = Vec::new();
    let wu: usize = if w == 32 {
        32
    } else {
        64
    };
    let mut j: usize = 0;
    while j < wu
        invariant
            wu == w,
            j <= w,
            valid_width(w),
            poly <= width_mask(w),
            m@.len() == j,
            forall|i: int| 0 <= i < j ==> m@[i] == steps(w, refl, poly, 1u64 << (i as u64), 8),
        decreases w - j,
    {
        let mut r: u64 = 1u64 << (j as u64);
        proof {
            let jj = j as u64;
            assert((1u64 << jj) <= width_mask(w)) by (bit_vector)
                requires
                    jj < w,
                    w == 32 || w == 64,
            ;
        }
        let mut k: usize = 0;
        while k < 8
            invariant
                k <= 8,
                valid_width(w),
                poly <= width_mask(w),
                j < w,
                r == steps(w, refl, poly, 1u64 << (j as u64), k as nat),
                r <= width_mask(w),
            decreases 8 - k,
        {
            r = crate::engine::step_once(w, refl, poly, r);
            k = k + 1;
        }
        m.push(r);
        j = j + 1;
    }
    m
}

/// Entries of a representing matrix stay in width.
proof fn lemma_represents_bound(m: Seq<u64>, w: u64, refl: bool, poly: u64, n: nat)
    requires
        valid_width(w),
        poly <= width_mask(w),
        represents(m, w, refl, poly, n),
    ensures
        forall|j: int| 0 <= j < w ==> m[j] <= width_mask(w),
{
    assert forall|j: int| 0 <= j < w implies m[j] <= width_mask(w) by {
        let jj = j as u64;
        assert((1u64 << jj) <= width_mask(w)) by (bit_vector)
            requires
                jj < w,
                w == 32 || w == 64,
        ;
        lemma_steps_bound(w, refl, poly, 1u64 << (j as u64), n);
    }
}

/// Square a matrix: the result represents twice as many steps.
fn square_op(m: &Vec<u64>, w: u64, refl: bool, poly: u64, Ghost(n): Ghost<nat>) -> (m2: Vec<u64>)
    requires
        valid_width(w),
        poly <= width_mask(w),
        represents(m@, w, refl, poly, n),
    ensures
        represents(m2@, w, refl, poly, 2 * n),
{
    proof {
        lemma_represents_bound(m@, w, refl, poly, n);
    }
    let mut m2: Vec<u64> = Vec::new();
    let mut j: usize = 0;
    while j < m.len()
        invariant
            j <= m@.len() == w,
            valid_width(w),
            poly <= width_mask(w),
            represents(m@, w, refl, poly, n),
            forall|i: int| 0 <= i < w ==> m@[i] <= width_mask(w),
            m2@.len() == j,
            forall|i: int| 0 <= i < j ==> m2@[i] == steps(w, refl, poly, 1u64 << (i as u64), 2 * n),
        decreases m@.len() - j,
    {
        let v = m[j];
        let r = apply_matrix(m, w, v);
        proof {
            lemma_apply_bits_steps(m@, w, refl, poly, n, v, w);
            lemma_whole_value(w, v);
            lemma_steps_add(w, refl, poly, 1u64 << (j as u64), n, n);
        }
        m2.push(r);
        j = j + 1;
    }
    m2
}

/// Advance a register by `8 * len` steps without reading any data, by binary
/// decomposition of `len` over successively squared step matrices.
pub fn shift_reg(w: u64, refl: bool, poly: u64, x: u64, len: u64) -> (y: u64)
    requires
        valid_width(w),
        poly <= width_mask(w),
        x <= width_mask(w),
    ensures
        y == steps(w, refl, poly, x, (8 * len) as nat),
        y <= width_mask(w),
{
    let mut m = op_for_byte(w, refl, poly);
    let mut y = x;
    let mut k: usize = 0;
    proof {
        assert(len & (((1u64 << 0u64) - 1) as u64) == 0) by (bit_vector);
        lemma2_to64();
    }
    while k < 64
        invariant
            k <= 64,
            valid_width(w),
            poly <= width_mask(w),
            x <= width_mask(w),
            represents(m@, w, refl, poly, 8 * pow2(k as nat)),
            y == steps(w, refl, poly, x, (8 * ((len & low_mask(k as nat)) as nat)) as nat),
            y <= width_mask(w),
        decreases 64 - k,
    {
        let kk = k as u64;
        let ghost e = 8 * pow2(k as nat);
        let ghost consumed = (len & low_mask(k as nat)) as nat;
        let ghost mk = low_mask(k as nat);
        let ghost mk1 = low_mask((k + 1) as nat);
        proof {
            lemma_u64_pow2_no_overflow(k as nat);
            lemma_u64_shl_is_mul(1u64, kk);
            assert((1u64 << kk) == pow2(k as nat));
        }
        if (len >> kk) & 1 == 1 {
            let y2 = apply_matrix(&m, w, y);
            proof {
                lemma_apply_bits_steps(m@, w, refl, poly, e, y, w);
                lemma_whole_value(w, y);
                lemma_steps_add(w, refl, poly, x, (8 * consumed) as nat, e);
                if k == 63 {
                    assert((len >> kk) & 1 == 1 ==> (len & mk1) == (len & mk) + (1u64 << kk))
                        by (bit_vector)
                        requires
                            kk == 63,
                            mk1 == 0xffff_ffff_ffff_ffffu64,
                            mk == ((1u64 << kk) - 1) as u64,
                    ;
                } else {
                    assert((len >> kk) & 1 == 1 ==> (len & mk1) == (len & mk) + (1u64 << kk))
                        by (bit_vector)
                        requires
                            kk <= 62,
                            mk1 == ((1u64 << ((kk + 1) as u64)) - 1) as u64,
                            mk == ((1u64 << kk) - 1) as u64,
                    ;
                }
                lemma_steps_bound(w, refl, poly, y, e);
            }
            y = y2;
        } else {
            proof {
                if k == 63 {
                    assert((len >> kk) & 1 != 1 ==> (len & mk1) == (len & mk)) by (bit_vector)
                        requires
                            kk == 63,
                            mk1 == 0xffff_ffff_ffff_ffffu64,
                            mk == ((1u64 << kk) - 1) as u64,
                    ;
                } else {
                    assert((len >> kk) & 1 != 1 ==> (len & mk1) == (len & mk)) by (bit_vector)
                        requires
                            kk <= 62,
                            mk1 == ((1u64 << ((kk + 1) as u64)) - 1) as u64,
                            mk == ((1u64 << kk) - 1) as u64,
                    ;
                }
            }
        }
        m = square_op(&m, w, refl, poly, Ghost(e));
        proof {
            lemma_pow2_adds(k as nat, 1);
            lemma2_to64();
            assert(2 * e == 8 * pow2((k + 1) as nat));
        }
        k = k + 1;
    }
    proof {
        assert(len & 0xffff_ffff_ffff_ffffu64 == len) by (bit_vector);
    }
    y
}


/// A checksum value fits the algorithm's width.
pub proof fn lemma_checksum_bound(p: CrcParams, data: Seq<u8>)
    requires
        p.wf(),
    ensures
        p.checksum_spec(data) <= width_mask(p.w()),
{
    crate::params::lemma_params_bounds(p);
    crate::lemmas::lemma_update_bound(p.w(), p.refin, p.eff_poly(), p.init_reg(), data);
    let r = p.update_spec(p.init_reg(), data);
    crate::params::lemma_low_mask_width(p.w());
    if p.refout != p.refin {
        crate::reflect::lemma_reflect_bound(r, p.w() as nat);
        crate::lemmas::lemma_xor_bound(p.w(), crate::model::reflect_bits(r, p.w() as nat), p.xorout);
    } else {
        crate::lemmas::lemma_xor_bound(p.w(), r, p.xorout);
    }
}

/// Combine law at the register level: the register of a concatenation is the
/// register of the second part XOR the first part's register deviation from
/// the initial register, advanced by the second part's length.
pub proof fn lemma_combine_registers(p: CrcParams, a: Seq<u8>, b: Seq<u8>)
    requires
        p.wf(),
    ensures
        p.update_spec(p.init_reg(), a + b) == steps(
            p.w(),
            p.refin,
            p.eff_poly(),
            p.update_spec(p.init_reg(), a) ^ p.init_reg(),
            (8 * b.len()) as nat,
        ) ^ p.update_spec(p.init_reg(), b),
{
    let w = p.w();
    let refl = p.refin;
    let poly = p.eff_poly();
    let r0 = p.init_reg();
    let ra = p.update_spec(r0, a);
    crate::lemmas::lemma_update_append(w, refl, poly, r0, a, b);
    crate::lemmas::xor_facts(ra, r0, 0);
    crate::lemmas::xor_facts(r0, ra ^ r0, 0);
    assert(r0 ^ (ra ^ r0) == ra);
    crate::lemmas::lemma_update_affine(w, refl, poly, r0, ra ^ r0, b);
    crate::lemmas::xor_facts(
        p.update_spec(r0, b),
        steps(w, refl, poly, ra ^ r0, (8 * b.len()) as nat),
        0,
    );
}

/// Merge the finalized checksum of a byte range A and the finalized checksum
/// of an immediately following range B of length `len_b` into the checksum of
/// the concatenation, for any well-formed parameter set.  Only `len_b` is
/// consulted, never the data.
pub fn checksum_combine_with_params(
    params: CrcParams,
    checksum_a: u64,
    checksum_b: u64,
    len_b: u64,
) -> (c: u64)
    requires
        params.wf(),
    ensures
        forall|a: Seq<u8>, b: Seq<u8>|
            checksum_a == params.checksum_spec(a) && checksum_b == params.checksum_spec(b)
                && b.len() == len_b ==> c == params.checksum_spec(a + b),
{
    proof {
        crate::params::lemma_params_bounds(params);
    }
    let w = params.width as u64;
    let m = mask_for(w);
    let ca = checksum_a & m;
    let cb = checksum_b & m;
    proof {
        assert(checksum_a & m <= m && checksum_b & m <= m) by (bit_vector);
    }
    let ra = params.unfinalize_reg(ca);
    let rb = params.unfinalize_reg(cb);
    let r0 = params.init_reg_exec();
    proof {
        crate::lemmas::lemma_xor_bound(w, ra, r0);
    }
    let y = shift_reg(w, params.refin, params.eff_poly_exec(), ra ^ r0, len_b);
    proof {
        crate::lemmas::lemma_xor_bound(w, y, rb);
    }
    let reg = y ^ rb;
    let c = params.finalize_reg(reg);
    proof {
        assert forall|a: Seq<u8>, b: Seq<u8>|
            checksum_a == params.checksum_spec(a) && checksum_b == params.checksum_spec(b)
                && b.len() == len_b implies c == params.checksum_spec(a + b) by {
            let upd_a = params.update_spec(params.init_reg(), a);
            let upd_b = params.update_spec(params.init_reg(), b);
            crate::lemmas::lemma_update_bound(w, params.refin, params.eff_poly(), params.init_reg(), a);
            crate::lemmas::lemma_update_bound(w, params.refin, params.eff_poly(), params.init_reg(), b);
            lemma_checksum_bound(params, a);
            lemma_checksum_bound(params, b);
            lemma_whole_value(w, checksum_a);
            lemma_whole_value(w, checksum_b);
            assert(ra == upd_a);
            assert(rb == upd_b);
            lemma_combine_registers(params, a, b);
        }
    }
    c
}

/// Merge two finalized checksums computed under one standard algorithm.
pub fn checksum_combine(
    algorithm: CrcAlgorithm,
    checksum_a: u64,
    checksum_b: u64,
    len_b: u64,
) -> (c: u64)
    requires
        !algorithm.is_custom(),
    ensures
        forall|a: Seq<u8>, b: Seq<u8>|
            checksum_a == standard_params(algorithm).checksum_spec(a) && checksum_b
                == standard_params(algorithm).checksum_spec(b) && b.len() == len_b ==> c
                == standard_params(algorithm).checksum_spec(a + b),
{
    checksum_combine_with_params(CrcParams::standard(algorithm), checksum_a, checksum_b, len_b)
}

} // verus!
