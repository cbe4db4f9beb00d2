//! Streaming sessions: chunked updates, finalize stability, reset, combine.

use crc_fast::checksum;
use crc_fast::combine::{checksum_combine, checksum_combine_with_params};
use crc_fast::digest::Digest;
use crc_fast::params::{CrcAlgorithm, CrcError, CrcParams};

#[test]
fn streaming_matches_one_shot() {
    let data: Vec<u8> = (0u16..500).map(|i| (i % 251) as u8).collect();
    let algorithms = [
        CrcAlgorithm::Crc32IsoHdlc,
        CrcAlgorithm::Crc32Bzip2,
        CrcAlgorithm::Crc64Xz,
        CrcAlgorithm::Crc64Ecma182,
    ];
    for alg in algorithms {
        let expected = checksum(alg, &data);
        for split in [0usize, 1, 7, 250, 499, 500] {
            let mut d = Digest::new(alg);
            d.update(&data[..split]);
            d.update(&data[split..]);
            assert_eq!(d.finalize(), expected);
        }
        let mut d = Digest::new(alg);
        for chunk in data.chunks(3) {
            d.update(chunk);
        }
        assert_eq!(d.finalize(), expected);
    }
}

#[test]
fn empty_update_is_a_no_op() {
    let mut d = Digest::new(CrcAlgorithm::Crc32IsoHdlc);
    d.update(b"12345");
    d.update(b"");
    d.update(b"6789");
    assert_eq!(d.finalize(), 0xcbf43926);
}

#[test]
fn finalize_does_not_mutate() {
    let mut d = Digest::new(CrcAlgorithm::Crc64Nvme);
    d.update(b"123456789");
    let first = d.finalize();
    assert_eq!(d.finalize(), first);
    assert_eq!(d.finalize(), first);
    assert_eq!(first, 0xae8b14860a799888);
}

#[test]
fn reset_replays_to_the_same_value() {
    let x = b"some bytes fed twice";
    let mut d = Digest::new(CrcAlgorithm::Crc32Iscsi);
    d.update(x);
    let r1 = d.finalize();
    d.reset();
    d.update(x);
    let r2 = d.finalize();
    assert_eq!(r1, r2);
    assert_eq!(d.count(), x.len() as u64);
}

#[test]
fn reset_discards_previous_stream() {
    let mut d = Digest::new(CrcAlgorithm::Crc64Xz);
    d.update(b"something else entirely");
    d.reset();
    d.update(b"123456789");
    assert_eq!(d.finalize(), 0x995dc9bbdf1939fa);
    assert_eq!(d.count(), 9);
}

#[test]
fn combine_example_from_halves() {
    let a = checksum(CrcAlgorithm::Crc32IsoHdlc, b"1234");
    let b = checksum(CrcAlgorithm::Crc32IsoHdlc, b"56789");
    let combined = checksum_combine(CrcAlgorithm::Crc32IsoHdlc, a, b, 5);
    assert_eq!(combined, checksum(CrcAlgorithm::Crc32IsoHdlc, b"123456789"));
    assert_eq!(combined, 0xcbf43926);
}

#[test]
fn combine_all_algorithms_and_splits() {
    let data: Vec<u8> = (0u16..300).map(|i| (i.wrapping_mul(31) % 256) as u8).collect();
    let algorithms = [
        CrcAlgorithm::Crc32Aixm,
        CrcAlgorithm::Crc32Autosar,
        CrcAlgorithm::Crc32CdRomEdc,
        CrcAlgorithm::Crc32IsoHdlc,
        CrcAlgorithm::Crc32Mpeg2,
        CrcAlgorithm::Crc64GoIso,
        CrcAlgorithm::Crc64Ms,
        CrcAlgorithm::Crc64We,
        CrcAlgorithm::Crc64Xz,
    ];
    for alg in algorithms {
        let whole = checksum(alg, &data);
        for split in [0usize, 1, 150, 299, 300] {
            let a = checksum(alg, &data[..split]);
            let b = checksum(alg, &data[split..]);
            let len_b = (data.len() - split) as u64;
            assert_eq!(checksum_combine(alg, a, b, len_b), whole);
        }
    }
}

#[test]
fn combine_with_custom_params() {
    let p = CrcParams::new("my-crc32", 32, 0x04c11db7, 0xffffffff, true, 0xffffffff, 0xcbf43926)
        .unwrap();
    let a = crc_fast::checksum_with_params(p, b"hello ");
    let b = crc_fast::checksum_with_params(p, b"world");
    let whole = crc_fast::checksum_with_params(p, b"hello world");
    assert_eq!(checksum_combine_with_params(p, a, b, 5), whole);
}

#[test]
fn digest_combine_appends_the_other_stream() {
    let mut left = Digest::new(CrcAlgorithm::Crc64Xz);
    left.update(b"12345");
    let mut right = Digest::new(CrcAlgorithm::Crc64Xz);
    right.update(b"6789");
    assert!(left.combine(&right).is_ok());
    assert_eq!(left.finalize(), 0x995dc9bbdf1939fa);
    assert_eq!(left.count(), 9);
}

#[test]
fn digest_combine_rejects_mismatched_algorithms() {
    let mut left = Digest::new(CrcAlgorithm::Crc32IsoHdlc);
    left.update(b"1234");
    let before = left.finalize();
    let mut right = Digest::new(CrcAlgorithm::Crc32Iscsi);
    right.update(b"56789");
    assert_eq!(left.combine(&right), Err(CrcError::MismatchedAlgorithmCombine));
    // The mismatch left the session untouched.
    assert_eq!(left.finalize(), before);
    assert_eq!(left.count(), 4);
}
