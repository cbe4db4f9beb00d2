//! Software fallback engine: portable table-driven computation.
//!
//! A 256-entry table holds the effect of eight register steps on each possible
//! injected byte.  Because the steps are GF(2)-linear, absorbing a byte
//! decomposes into a plain 8-bit shift of the register XOR one table entry;
//! the proofs below establish exactly that, so the byte-wise loop is proved
//! equal to the bit-at-a-time model.

use vstd::prelude::*;

use crate::lemmas::{
    lemma_low_shift_msb, lemma_low_shift_refl, lemma_step_bound, lemma_steps_bound,
    lemma_steps_linear, lemma_update_snoc,
};
use crate::model::{
    byte_inject, crc_update, process_byte, step, steps, top_bit, valid_width, width_mask,
};

verus! {

/// The lookup table of a width/orientation/polynomial triple: entry `i` is the
/// register after injecting byte `i` into an all-zero register and shifting
/// eight times.
pub open spec fn table_spec(w: u64, refl: bool, poly: u64) -> Seq<u64> {
    Seq::new(256, |i: int| steps(w, refl, poly, byte_inject(w, refl, i as u8), 8))
}

/// Decomposition of a byte absorption in the most-significant-bit-first
/// orientation: split the register into its top byte (folded with the input
/// byte into a table index) and the rest (a plain shift).
proof fn lemma_byte_decompose_msb(w: u64, r: u64, bb: u64)
    by (bit_vector)
    requires
        valid_width(w),
        r <= width_mask(w),
        bb <= 255,
    ensures
        r ^ (bb << ((w - 8) as u64)) == (r & (width_mask(w) >> 8)) ^ ((((r >> ((w - 8) as u64))
            ^ bb) & 0xff) << ((w - 8) as u64)),
        r & (width_mask(w) >> 8) <= width_mask(w) >> 8,
        ((r >> ((w - 8) as u64)) ^ bb) & 0xff <= 255,
        ((r & (width_mask(w) >> 8)) << 8) & width_mask(w) == (r << 8) & width_mask(w),
{
}

/// Decomposition of a byte absorption in the reflected orientation: split the
/// register into its low byte (folded with the input byte into a table index)
/// and the rest (a plain shift).
proof fn lemma_byte_decompose_refl(w: u64, r: u64, bb: u64)
    by (bit_vector)
    requires
        valid_width(w),
        r <= width_mask(w),
        bb <= 255,
    ensures
        r ^ bb == (r & 0xffff_ffff_ffff_ff00u64) ^ ((r ^ bb) & 0xff),
        (r & 0xffff_ffff_ffff_ff00u64) & (((1u64 << 8u64) - 1) as u64) == 0,
        r & 0xffff_ffff_ffff_ff00u64 <= width_mask(w),
        (r ^ bb) & 0xff <= 255,
        (r & 0xffff_ffff_ffff_ff00u64) >> 8 == r >> 8,
{
}

/// Absorbing a byte in the most-significant-bit-first orientation equals one
/// 8-bit register shift XOR one table entry.
pub proof fn lemma_process_byte_msb(w: u64, poly: u64, r: u64, b: u8)
    requires
        valid_width(w),
        poly <= width_mask(w),
        r <= width_mask(w),
    ensures
        ((r >> ((w - 8) as u64)) ^ (b as u64)) & 0xff < 256,
        process_byte(w, false, poly, r, b) == ((r << 8) & width_mask(w)) ^ table_spec(
            w,
            false,
            poly,
        )[(((r >> ((w - 8) as u64)) ^ (b as u64)) & 0xff) as int],
{
    let bb = b as u64;
    let t = ((r >> ((w - 8) as u64)) ^ bb) & 0xff;
    let lo = r & (width_mask(w) >> 8);
    lemma_byte_decompose_msb(w, r, bb);
    assert((t as u8) as u64 == t);
    assert(byte_inject(w, false, t as u8) == t << ((w - 8) as u64));
    lemma_steps_linear(w, false, poly, lo, byte_inject(w, false, t as u8), 8);
    lemma_low_shift_msb(w, poly, lo, 8);
    assert(table_spec(w, false, poly)[t as int] == steps(
        w,
        false,
        poly,
        byte_inject(w, false, t as u8),
        8,
    ));
}

/// Absorbing a byte in the reflected orientation equals one 8-bit register
/// shift XOR one table entry.
pub proof fn lemma_process_byte_refl(w: u64, poly: u64, r: u64, b: u8)
    requires
        valid_width(w),
        poly <= width_mask(w),
        r <= width_mask(w),
    ensures
        (r ^ (b as u64)) & 0xff < 256,
        process_byte(w, true, poly, r, b) == (r >> 8) ^ table_spec(w, true, poly)[((r ^ (b as u64))
            & 0xff) as int],
{
    let bb = b as u64;
    let t = (r ^ bb) & 0xff;
    let lo = r & 0xffff_ffff_ffff_ff00u64;
    lemma_byte_decompose_refl(w, r, bb);
    assert((t as u8) as u64 == t);
    assert(byte_inject(w, true, t as u8) == t);
    lemma_steps_linear(w, true, poly, lo, byte_inject(w, true, t as u8), 8);
    lemma_low_shift_refl(w, poly, lo, 8);
    assert(table_spec(w, true, poly)[t as int] == steps(
        w,
        true,
        poly,
        byte_inject(w, true, t as u8),
        8,
    ));
}

/// The width mask as a run-time value.
pub fn mask_for(w: u64) -> (m: u64)
    requires
        valid_width(w),
    ensures
        m == width_mask(w),
{
    if w == 32 {
        0xffff_ffffu64
    } else {
        0xffff_ffff_ffff_ffffu64
    }
}

/// One register step, as the model defines it.
pub(crate) fn step_once(w: u64, refl: bool, poly: u64, r: u64) -> (s: u64)
    requires
        valid_width(w),
        poly <= width_mask(w),
        r <= width_mask(w),
    ensures
        s == step(w, refl, poly, r),
        s <= width_mask(w),
{
    proof {
        lemma_step_bound(w, refl, poly, r);
    }
    if refl {
        if r & 1 != 0 {
            (r >> 1) ^ poly
        } else {
            r >> 1
        }
    } else {
        let top = if w == 32 {
            0x8000_0000u64
        } else {
            0x8000_0000_0000_0000u64
        };
        let m = mask_for(w);
        assert(top == top_bit(w));
        if r & top != 0 {
            ((r << 1) & m) ^ poly
        } else {
            (r << 1) & m
        }
    }
}

/// Where a run-time byte enters the register.
fn inject_byte(w: u64, refl: bool, b: u8) -> (r: u64)
    requires
        valid_width(w),
    ensures
        r == byte_inject(w, refl, b),
        r <= width_mask(w),
{
    proof {
        crate::lemmas::lemma_inject_bound(w, refl, b);
    }
    if refl {
        b as u64
    } else {
        (b as u64) << (w - 8)
    }
}

/// Build the 256-entry lookup table for one width/orientation/polynomial.
pub fn build_table(w: u64, refl: bool, poly: u64) -> (t: Vec<u64>)
    requires
        valid_width(w),
        poly <= width_mask(w),
    ensures
        t@ == table_spec(w, refl, poly),
{
    let mut t: Vec<u64> = Vec::new();
    let mut i: usize = 0;
    while i < 256
        invariant
            i <= 256,
            t@.len() == i,
            valid_width(w),
            poly <= width_mask(w),
            forall|k: int|
                0 <= k < i ==> t@[k] == steps(w, refl, poly, byte_inject(w, refl, k as u8), 8),
        decreases 256 - i,
    {
        let b: u8 = i as u8;
        let mut r: u64 = inject_byte(w, refl, b);
        let mut k: usize = 0;
        while k < 8
            invariant
                k <= 8,
                valid_width(w),
                poly <= width_mask(w),
                r == steps(w, refl, poly, byte_inject(w, refl, b), k as nat),
                r <= width_mask(w),
            decreases 8 - k,
        {
            r = step_once(w, refl, poly, r);
            k = k + 1;
        }
        t.push(r);
        i = i + 1;
    }
    proof {
        assert(t@ =~= table_spec(w, refl, poly));
    }
    t
}

/// Absorb `data` into register `r0` using a prebuilt table.  The byte-wise
/// table walk is proved equal to the bit-at-a-time model.
pub fn update_reg(w: u64, refl: bool, poly: u64, table: &Vec<u64>, r0: u64, data: &[u8]) -> (r: u64)
    requires
        valid_width(w),
        poly <= width_mask(w),
        r0 <= width_mask(w),
        table@ == table_spec(w, refl, poly),
    ensures
        r == crc_update(w, refl, poly, r0, data@),
        r <= width_mask(w),
{
    let m = mask_for(w);
    let sh = w - 8;
    let mut r: u64 = r0;
    let mut i: usize = 0;
    while i < data.len()
        invariant
            i <= data.len(),
            valid_width(w),
            poly <= width_mask(w),
            r0 <= width_mask(w),
            table@ == table_spec(w, refl, poly),
            m == width_mask(w),
            sh == w - 8,
            r == crc_update(w, refl, poly, r0, data@.take(i as int)),
            r <= width_mask(w),
        decreases data.len() - i,
    {
        let b: u8 = data[i];
        proof {
            assert(data@.take(i as int + 1) =~= data@.take(i as int).push(data@[i as int]));
            lemma_update_snoc(w, refl, poly, r0, data@.take(i as int), b);
            crate::lemmas::lemma_inject_bound(w, refl, b);
            crate::lemmas::lemma_xor_bound(w, r, byte_inject(w, refl, b));
            lemma_steps_bound(w, refl, poly, r ^ byte_inject(w, refl, b), 8);
        }
        if refl {
            proof {
                lemma_process_byte_refl(w, poly, r, b);
            }
            let idx = ((r ^ (b as u64)) & 0xff) as usize;
            r = (r >> 8) ^ table[idx];
        } else {
            proof {
                lemma_process_byte_msb(w, poly, r, b);
            }
            let idx = (((r >> sh) ^ (b as u64)) & 0xff) as usize;
            r = ((r << 8) & m) ^ table[idx];
        }
        i = i + 1;
    }
    proof {
        assert(data@.take(data@.len() as int) =~= data@);
    }
    r
}

} // verus!
