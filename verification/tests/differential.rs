//! Differential testing against an independent CRC implementation: on every
//! supported algorithm that the reference crate also catalogues, both
//! libraries must agree byte for byte, whatever the input.

use crc_fast::digest::Digest;
use crc_fast::params::CrcAlgorithm;

fn reference(alg: CrcAlgorithm, bytes: &[u8]) -> u64 {
    match alg {
        CrcAlgorithm::Crc32Aixm => crc::Crc::<u32>::new(&crc::CRC_32_AIXM).checksum(bytes) as u64,
        CrcAlgorithm::Crc32Autosar => {
            crc::Crc::<u32>::new(&crc::CRC_32_AUTOSAR).checksum(bytes) as u64
        }
        CrcAlgorithm::Crc32Base91D => {
            crc::Crc::<u32>::new(&crc::CRC_32_BASE91_D).checksum(bytes) as u64
        }
        CrcAlgorithm::Crc32Bzip2 => crc::Crc::<u32>::new(&crc::CRC_32_BZIP2).checksum(bytes) as u64,
        CrcAlgorithm::Crc32CdRomEdc => {
            crc::Crc::<u32>::new(&crc::CRC_32_CD_ROM_EDC).checksum(bytes) as u64
        }
        CrcAlgorithm::Crc32Cksum => crc::Crc::<u32>::new(&crc::CRC_32_CKSUM).checksum(bytes) as u64,
        CrcAlgorithm::Crc32Iscsi => crc::Crc::<u32>::new(&crc::CRC_32_ISCSI).checksum(bytes) as u64,
        CrcAlgorithm::Crc32IsoHdlc => {
            crc::Crc::<u32>::new(&crc::CRC_32_ISO_HDLC).checksum(bytes) as u64
        }
        CrcAlgorithm::Crc32Jamcrc => {
            crc::Crc::<u32>::new(&crc::CRC_32_JAMCRC).checksum(bytes) as u64
        }
        CrcAlgorithm::Crc32Mef => crc::Crc::<u32>::new(&crc::CRC_32_MEF).checksum(bytes) as u64,
        CrcAlgorithm::Crc32Mpeg2 => {
            crc::Crc::<u32>::new(&crc::CRC_32_MPEG_2).checksum(bytes) as u64
        }
        CrcAlgorithm::Crc32Xfer => crc::Crc::<u32>::new(&crc::CRC_32_XFER).checksum(bytes) as u64,
        CrcAlgorithm::Crc64Ecma182 => {
            crc::Crc::<u64>::new(&crc::CRC_64_ECMA_182).checksum(bytes)
        }
        CrcAlgorithm::Crc64GoIso => crc::Crc::<u64>::new(&crc::CRC_64_GO_ISO).checksum(bytes),
        CrcAlgorithm::Crc64Ms => crc::Crc::<u64>::new(&crc::CRC_64_MS).checksum(bytes),
        CrcAlgorithm::Crc64Nvme => crc::Crc::<u64>::new(&crc::CRC_64_NVME).checksum(bytes),
        CrcAlgorithm::Crc64Redis => crc::Crc::<u64>::new(&crc::CRC_64_REDIS).checksum(bytes),
        CrcAlgorithm::Crc64We => crc::Crc::<u64>::new(&crc::CRC_64_WE).checksum(bytes),
        CrcAlgorithm::Crc64Xz => crc::Crc::<u64>::new(&crc::CRC_64_XZ).checksum(bytes),
        _ => unreachable!(),
    }
}

const ALGORITHMS: [CrcAlgorithm; 19] = [
    CrcAlgorithm::Crc32Aixm,
    CrcAlgorithm::Crc32Autosar,
    CrcAlgorithm::Crc32Base91D,
    CrcAlgorithm::Crc32Bzip2,
    CrcAlgorithm::Crc32CdRomEdc,
    CrcAlgorithm::Crc32Cksum,
    CrcAlgorithm::Crc32Iscsi,
    CrcAlgorithm::Crc32IsoHdlc,
    CrcAlgorithm::Crc32Jamcrc,
    CrcAlgorithm::Crc32Mef,
    CrcAlgorithm::Crc32Mpeg2,
    CrcAlgorithm::Crc32Xfer,
    CrcAlgorithm::Crc64Ecma182,
    CrcAlgorithm::Crc64GoIso,
    CrcAlgorithm::Crc64Ms,
    CrcAlgorithm::Crc64Nvme,
    CrcAlgorithm::Crc64Redis,
    CrcAlgorithm::Crc64We,
    CrcAlgorithm::Crc64Xz,
];

fn sample_inputs() -> Vec<Vec<u8>> {
    let mut inputs: Vec<Vec<u8>> = vec![
        vec![],
        vec![0x00],
        vec![0xff],
        b"123456789".to_vec(),
        b"The quick brown fox jumps over the lazy dog".to_vec(),
        vec![0u8; 64],
        vec![0xffu8; 64],
    ];
    // A pseudo-random buffer, fixed seed, no external randomness.
    let mut state: u64 = 0x243f6a8885a308d3;
    let mut buf = Vec::with_capacity(1024);
    for _ in 0..1024 {
        state = state.wrapping_mul(6364136223846793005).wrapping_add(1442695040888963407);
        buf.push((state >> 56) as u8);
    }
    inputs.push(buf);
    inputs
}

#[test]
fn one_shot_matches_reference() {
    for alg in ALGORITHMS {
        for input in sample_inputs() {
            assert_eq!(
                crc_fast::checksum(alg, &input),
                reference(alg, &input),
                "algorithm {:?}, input length {}",
                alg,
                input.len()
            );
        }
    }
}

#[test]
fn digest_matches_reference() {
    for alg in ALGORITHMS {
        for input in sample_inputs() {
            let mut d = Digest::new(alg);
            for chunk in input.chunks(17) {
                d.update(chunk);
            }
            assert_eq!(
                d.finalize(),
                reference(alg, &input),
                "algorithm {:?}, input length {}",
                alg,
                input.len()
            );
        }
    }
}
