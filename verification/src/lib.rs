//! Verified CRC checksum engine.
//!
//! Computes 32- and 64-bit cyclic-redundancy checksums for the catalogued
//! standard algorithm variants and for caller-defined parameter sets, with a
//! table-driven engine proved equal to the bit-at-a-time definition, an
//! incremental streaming digest, a cache for custom lookup tables, and an
//! algebraic combine operation that merges two independently computed
//! checksums without re-reading any data.

pub mod cache;
pub mod combine;
pub mod digest;
pub mod engine;
pub mod laws;
pub mod lemmas;
pub mod model;
pub mod params;
pub mod reflect;

use vstd::prelude::*;

use crate::params::{standard_params, CrcAlgorithm, CrcError, CrcParams};

verus! {

/// One-shot checksum of `data` under a standard algorithm.
pub fn checksum(algorithm: CrcAlgorithm, data: &[u8]) -> (c: u64)
    requires
        !algorithm.is_custom(),
    ensures
        c == standard_params(algorithm).checksum_spec(data@),
{
    checksum_with_params(CrcParams::standard(algorithm), data)
}

/// One-shot checksum of `data` under an arbitrary well-formed parameter set.
/// A fresh lookup table is built for the call and dropped afterwards.
pub fn checksum_with_params(params: CrcParams, data: &[u8]) -> (c: u64)
    requires
        params.wf(),
    ensures
        c == params.checksum_spec(data@),
{
    proof {
        params::lemma_params_bounds(params);
    }
    let table = engine::build_table(params.width as u64, params.refin, params.eff_poly_exec());
    let r = engine::update_reg(
        params.width as u64,
        params.refin,
        params.eff_poly_exec(),
        &table,
        params.init_reg_exec(),
        data,
    );
    params.finalize_reg(r)
}

/// One-shot checksum through code that expects a 32-bit register: a 64-bit
/// identifier dispatched here is a width mismatch, not a truncated value.
pub fn checksum_u32(algorithm: CrcAlgorithm, data: &[u8]) -> (r: Result<u32, CrcError>)
    requires
        !algorithm.is_custom(),
    ensures
        algorithm.spec_width() == 32 ==> r == Result::<u32, CrcError>::Ok(
            standard_params(algorithm).checksum_spec(data@) as u32,
        ),
        algorithm.spec_width() == 64 ==> r == Result::<u32, CrcError>::Err(
            CrcError::AlgorithmWidthMismatch,
        ),
{
    let p = CrcParams::standard(algorithm);
    if p.width != 32 {
        return Err(CrcError::AlgorithmWidthMismatch);
    }
    let c = checksum_with_params(p, data);
    proof {
        combine::lemma_checksum_bound(p, data@);
    }
    Ok(c as u32)
}

/// One-shot checksum through code that expects a 64-bit register: a 32-bit
/// identifier dispatched here is a width mismatch.
pub fn checksum_u64(algorithm: CrcAlgorithm, data: &[u8]) -> (r: Result<u64, CrcError>)
    requires
        !algorithm.is_custom(),
    ensures
        algorithm.spec_width() == 64 ==> r == Result::<u64, CrcError>::Ok(
            standard_params(algorithm).checksum_spec(data@),
        ),
        algorithm.spec_width() == 32 ==> r == Result::<u64, CrcError>::Err(
            CrcError::AlgorithmWidthMismatch,
        ),
{
    let p = CrcParams::standard(algorithm);
    if p.width != 64 {
        return Err(CrcError::AlgorithmWidthMismatch);
    }
    Ok(checksum_with_params(p, data))
}

/// Name of the backend that would service this algorithm on the current CPU.
/// This build always computes with the portable software engine; read-only,
/// no side effects.
pub fn get_calculator_target(_algorithm: CrcAlgorithm) -> (t: &'static str)
    ensures
        t@ == "software"@,
{
    "software"
}

} // verus!
