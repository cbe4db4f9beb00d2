//! Mathematical model of a CRC register.
//!
//! A CRC register of width 32 or 64 is held in the low bits of a `u64`.  The
//! model is the classical one: the register is a polynomial over GF(2), one
//! `step` multiplies it by x and reduces it by the generator polynomial, and a
//! byte of input is XORed into the register before eight such steps.  Reflected
//! algorithms keep the register in bit-reversed orientation, where the same
//! multiplication shifts towards the least significant bit.

use vstd::prelude::*;

verus! {

/// The two register widths this engine supports.
pub open spec fn valid_width(w: u64) -> bool {
    w == 32 || w == 64
}

/// All-ones mask covering the low `w` bits of the register domain.
pub open spec fn width_mask(w: u64) -> u64 {
    if w == 32 {
        0xffff_ffffu64
    } else {
        0xffff_ffff_ffff_ffffu64
    }
}

/// The most significant bit of a `w`-bit register.
pub open spec fn top_bit(w: u64) -> u64 {
    if w == 32 {
        0x8000_0000u64
    } else {
        0x8000_0000_0000_0000u64
    }
}

/// One shift of the register by a single bit position: multiplication by x
/// modulo the generator polynomial, in the orientation selected by `refl`.
/// `poly` is the generator in the same orientation as the register.
pub open spec fn step(w: u64, refl: bool, poly: u64, r: u64) -> u64 {
    if refl {
        if r & 1 != 0 {
            (r >> 1) ^ poly
        } else {
            r >> 1
        }
    } else {
        if r & top_bit(w) != 0 {
            ((r << 1) & width_mask(w)) ^ poly
        } else {
            (r << 1) & width_mask(w)
        }
    }
}

/// `n` successive register shifts: multiplication by x^n modulo the generator.
pub open spec fn steps(w: u64, refl: bool, poly: u64, r: u64, n: nat) -> u64
    decreases n,
{
    if n == 0 {
        r
    } else {
        step(w, refl, poly, steps(w, refl, poly, r, (n - 1) as nat))
    }
}

/// Where an input byte enters the register: at the top in the
/// most-significant-bit-first orientation, at the bottom in the reflected one.
pub open spec fn byte_inject(w: u64, refl: bool, b: u8) -> u64 {
    if refl {
        b as u64
    } else {
        (b as u64) << ((w - 8) as u64)
    }
}

/// Absorb one input byte: XOR it into the register, then shift eight times.
pub open spec fn process_byte(w: u64, refl: bool, poly: u64, r: u64, b: u8) -> u64 {
    steps(w, refl, poly, r ^ byte_inject(w, refl, b), 8)
}

/// Absorb a byte sequence, front to back.
pub open spec fn crc_update(w: u64, refl: bool, poly: u64, r: u64, data: Seq<u8>) -> u64
    decreases data.len(),
{
    if data.len() == 0 {
        r
    } else {
        crc_update(w, refl, poly, process_byte(w, refl, poly, r, data[0]), data.skip(1))
    }
}

/// The low `n` bits of `x` in reverse order (bit j of the result is bit
/// `n - 1 - j` of `x`); bits at position `n` and above are zero.
pub open spec fn reflect_bits(x: u64, n: nat) -> u64
    decreases n,
{
    if n == 0 {
        0
    } else {
        ((x & 1) << ((n - 1) as u64)) | reflect_bits(x >> 1, (n - 1) as nat)
    }
}

/// All-ones mask covering the low `n` bits, for `n <= 64`.
pub open spec fn low_mask(n: nat) -> u64 {
    if n >= 64 {
        0xffff_ffff_ffff_ffffu64
    } else {
        ((1u64 << (n as u64)) - 1) as u64
    }
}

} // verus!
