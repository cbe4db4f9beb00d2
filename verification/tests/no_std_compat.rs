//! The core surface needed by constrained deployments: checksums, the
//! dispatch diagnostic, and plain construction of the core types.

use crc_fast::digest::Digest;
use crc_fast::get_calculator_target;
use crc_fast::params::{CrcAlgorithm, CrcParams};

#[test]
fn test_no_std_builds() {
    // The engine core works from plain values alone.
    assert_eq!(crc_fast::checksum(CrcAlgorithm::Crc32IsoHdlc, b"123456789"), 0xcbf43926);
    let mut digest = Digest::new(CrcAlgorithm::Crc64Xz);
    digest.update(b"123456789");
    assert_eq!(digest.finalize(), 0x995dc9bbdf1939fa);
    assert_eq!(crc_fast::checksum(CrcAlgorithm::Crc32Iscsi, b"123456789"), 0xe3069283);
}

#[test]
fn test_alloc_feature_works() {
    let target = get_calculator_target(CrcAlgorithm::Crc32IsoHdlc);
    assert!(
        target.contains("aarch64") || target.contains("x86") || target.contains("software")
    );
}

#[test]
fn test_core_types_only() {
    // Core types are constructible and usable without any further plumbing.
    let params = CrcParams::new("test", 32, 0x04c11db7, 0xffffffff, true, 0xffffffff, 0xcbf43926)
        .unwrap();
    let mut digest = Digest::new_with_params(params);
    digest.update(b"test");
    let _ = digest.finalize();
    let _ = CrcParams::standard(CrcAlgorithm::Crc32IsoHdlc);
}
