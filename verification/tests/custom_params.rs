//! Custom parameter sets: validation, the cache, and the configured
//! caching strategies.

use crc_fast::cache::{checksum_with_config, Cache, CacheConfig};
use crc_fast::params::{CrcAlgorithm, CrcError, CrcParams};
use crc_fast::{checksum_u32, checksum_u64, checksum_with_params};

#[test]
fn custom_params_reproduce_standard_values() {
    // The same parameters as CRC-32/ISO-HDLC and CRC-64/XZ, constructed at
    // run time.
    let p32 = CrcParams::new("custom-32", 32, 0x04c11db7, 0xffffffff, true, 0xffffffff, 0xcbf43926)
        .unwrap();
    assert_eq!(checksum_with_params(p32, b"123456789"), 0xcbf43926);
    let p64 = CrcParams::new(
        "custom-64",
        64,
        0x42f0e1eba9ea3693,
        0xffffffffffffffff,
        true,
        0xffffffffffffffff,
        0x995dc9bbdf1939fa,
    )
    .unwrap();
    assert_eq!(checksum_with_params(p64, b"123456789"), 0x995dc9bbdf1939fa);
}

#[test]
fn new_with_refout_allows_mixed_reflection() {
    let p = CrcParams::new_with_refout("mixed", 32, 0x04c11db7, 0, false, true, 0, 0).unwrap();
    assert!(!p.refin);
    assert!(p.refout);
    // CRC-32/XFER parameters with output reflection added: finalize reverses
    // the register, so the value differs from the plain variant.
    let plain = CrcParams::new("plain", 32, 0x000000af, 0, false, 0, 0xbd0be338).unwrap();
    let mixed = CrcParams::new_with_refout("mixed-xfer", 32, 0x000000af, 0, false, true, 0, 0)
        .unwrap();
    let a = checksum_with_params(plain, b"123456789");
    let b = checksum_with_params(mixed, b"123456789");
    assert_eq!(a, 0xbd0be338);
    assert_eq!(b, (a as u32).reverse_bits() as u64);
}

#[test]
fn unsupported_width_is_rejected() {
    assert_eq!(
        CrcParams::new("w16", 16, 0x8005, 0, true, 0, 0),
        Err(CrcError::UnsupportedWidth)
    );
    assert_eq!(
        CrcParams::new("w0", 0, 0, 0, false, 0, 0),
        Err(CrcError::UnsupportedWidth)
    );
}

#[test]
fn out_of_range_fields_are_rejected_not_truncated() {
    // A 64-bit polynomial offered to a 32-bit algorithm is an error, never a
    // silent cast.
    assert_eq!(
        CrcParams::new("wide-poly", 32, 0x1_04c11db7, 0xffffffff, true, 0xffffffff, 0),
        Err(CrcError::ParameterOutOfRange)
    );
    assert_eq!(
        CrcParams::new("wide-init", 32, 0x04c11db7, 0x1_00000000, true, 0, 0),
        Err(CrcError::ParameterOutOfRange)
    );
    assert_eq!(
        CrcParams::new("wide-xorout", 32, 0x04c11db7, 0, true, u64::MAX, 0),
        Err(CrcError::ParameterOutOfRange)
    );
    assert_eq!(
        CrcParams::new("wide-check", 32, 0x04c11db7, 0, true, 0, u64::MAX),
        Err(CrcError::ParameterOutOfRange)
    );
}

#[test]
fn cache_returns_identical_results_for_identical_keys() {
    let mut cache = Cache::new();
    // Two independently constructed, identically keyed parameter sets.
    let p1 = CrcParams::new("first", 32, 0x04c11db7, 0xffffffff, true, 0xffffffff, 0xcbf43926)
        .unwrap();
    let p2 = CrcParams::new("second", 32, 0x04c11db7, 0xffffffff, true, 0xffffffff, 0xcbf43926)
        .unwrap();
    let first = cache.checksum(p1, b"123456789");
    let repeat = cache.checksum(p2, b"123456789");
    assert_eq!(first, repeat);
    assert_eq!(first, 0xcbf43926);
    // Identical keys share one entry.
    assert_eq!(cache.len(), 1);
    // A differently keyed algorithm gets its own entry and its own table.
    let p3 = CrcParams::new("third", 32, 0x1edc6f41, 0xffffffff, true, 0xffffffff, 0xe3069283)
        .unwrap();
    assert_eq!(cache.checksum(p3, b"123456789"), 0xe3069283);
    assert_eq!(cache.len(), 2);
    // The first entry still serves its algorithm unchanged.
    assert_eq!(cache.checksum(p1, b"123456789"), 0xcbf43926);
    assert_eq!(cache.len(), 2);
}

#[test]
fn cached_and_uncached_paths_agree() {
    let mut cache = Cache::new();
    let p = CrcParams::new("agree", 64, 0xad93d23594c93659, u64::MAX, true, u64::MAX, 0).unwrap();
    let data: Vec<u8> = (0u16..400).map(|i| (i % 256) as u8).collect();
    let direct = checksum_with_params(p, &data);
    assert_eq!(cache.checksum(p, &data), direct);
    assert_eq!(cache.checksum(p, &data), direct);
}

#[test]
fn configured_strategies() {
    let mut cache = Cache::new();
    let custom = CrcParams::new("cfg", 32, 0x04c11db7, 0xffffffff, true, 0xffffffff, 0xcbf43926)
        .unwrap();
    let standard = CrcParams::standard(CrcAlgorithm::Crc32IsoHdlc);

    // A standard algorithm never touches the cache, under every strategy.
    for cfg in [CacheConfig::Cached, CacheConfig::PerCall, CacheConfig::RejectCustom] {
        assert_eq!(
            checksum_with_config(cfg, &mut cache, standard, b"123456789"),
            Ok(0xcbf43926)
        );
        assert_eq!(cache.len(), 0);
    }

    // A custom set is served per call or through the cache...
    assert_eq!(
        checksum_with_config(CacheConfig::PerCall, &mut cache, custom, b"123456789"),
        Ok(0xcbf43926)
    );
    assert_eq!(cache.len(), 0);
    assert_eq!(
        checksum_with_config(CacheConfig::Cached, &mut cache, custom, b"123456789"),
        Ok(0xcbf43926)
    );
    assert_eq!(cache.len(), 1);

    // ...and rejected outright where neither is available.
    assert_eq!(
        checksum_with_config(CacheConfig::RejectCustom, &mut cache, custom, b"123456789"),
        Err(CrcError::AllocationUnavailable)
    );
}

#[test]
fn width_checked_entry_points() {
    assert_eq!(checksum_u32(CrcAlgorithm::Crc32IsoHdlc, b"123456789"), Ok(0xcbf43926u32));
    assert_eq!(
        checksum_u32(CrcAlgorithm::Crc64Xz, b"123456789"),
        Err(CrcError::AlgorithmWidthMismatch)
    );
    assert_eq!(checksum_u64(CrcAlgorithm::Crc64Xz, b"123456789"), Ok(0x995dc9bbdf1939fa));
    assert_eq!(
        checksum_u64(CrcAlgorithm::Crc32IsoHdlc, b"123456789"),
        Err(CrcError::AlgorithmWidthMismatch)
    );
}
