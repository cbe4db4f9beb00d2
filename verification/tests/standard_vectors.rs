//! Every standard algorithm reproduces its published check value: the
//! checksum of the ASCII string "123456789".

use crc_fast::checksum;
use crc_fast::params::{CrcAlgorithm, CrcParams};

const CHECK_INPUT: &[u8] = b"123456789";

#[test]
fn crc32_check_values() {
    assert_eq!(checksum(CrcAlgorithm::Crc32Aixm, CHECK_INPUT), 0x3010bf7f);
    assert_eq!(checksum(CrcAlgorithm::Crc32Autosar, CHECK_INPUT), 0x1697d06a);
    assert_eq!(checksum(CrcAlgorithm::Crc32Base91D, CHECK_INPUT), 0x87315576);
    assert_eq!(checksum(CrcAlgorithm::Crc32Bzip2, CHECK_INPUT), 0xfc891918);
    assert_eq!(checksum(CrcAlgorithm::Crc32CdRomEdc, CHECK_INPUT), 0x6ec2edc4);
    assert_eq!(checksum(CrcAlgorithm::Crc32Cksum, CHECK_INPUT), 0x765e7680);
    assert_eq!(checksum(CrcAlgorithm::Crc32Iscsi, CHECK_INPUT), 0xe3069283);
    assert_eq!(checksum(CrcAlgorithm::Crc32IsoHdlc, CHECK_INPUT), 0xcbf43926);
    assert_eq!(checksum(CrcAlgorithm::Crc32Jamcrc, CHECK_INPUT), 0x340bc6d9);
    assert_eq!(checksum(CrcAlgorithm::Crc32Mef, CHECK_INPUT), 0xd2c22f51);
    assert_eq!(checksum(CrcAlgorithm::Crc32Mpeg2, CHECK_INPUT), 0x0376e6e7);
    assert_eq!(checksum(CrcAlgorithm::Crc32Xfer, CHECK_INPUT), 0xbd0be338);
}

#[test]
fn crc64_check_values() {
    assert_eq!(checksum(CrcAlgorithm::Crc64Ecma182, CHECK_INPUT), 0x6c40df5f0b497347);
    assert_eq!(checksum(CrcAlgorithm::Crc64GoIso, CHECK_INPUT), 0xb90956c775a41001);
    assert_eq!(checksum(CrcAlgorithm::Crc64Ms, CHECK_INPUT), 0x75d4b74f024eceea);
    assert_eq!(checksum(CrcAlgorithm::Crc64Nvme, CHECK_INPUT), 0xae8b14860a799888);
    assert_eq!(checksum(CrcAlgorithm::Crc64Redis, CHECK_INPUT), 0xe9c6d914c4b8d9ca);
    assert_eq!(checksum(CrcAlgorithm::Crc64We, CHECK_INPUT), 0x62ec59e3f1a4f00a);
    assert_eq!(checksum(CrcAlgorithm::Crc64Xz, CHECK_INPUT), 0x995dc9bbdf1939fa);
}

#[test]
fn check_values_match_parameter_table() {
    let algorithms = [
        CrcAlgorithm::Crc32Aixm,
        CrcAlgorithm::Crc32Autosar,
        CrcAlgorithm::Crc32Base91D,
        CrcAlgorithm::Crc32Bzip2,
        CrcAlgorithm::Crc32CdRomEdc,
        CrcAlgorithm::Crc32Cksum,
        CrcAlgorithm::Crc32Iscsi,
        CrcAlgorithm::Crc32IsoHdlc,
        CrcAlgorithm::Crc32Jamcrc,
        CrcAlgorithm::Crc32Mef,
        CrcAlgorithm::Crc32Mpeg2,
        CrcAlgorithm::Crc32Xfer,
        CrcAlgorithm::Crc64Ecma182,
        CrcAlgorithm::Crc64GoIso,
        CrcAlgorithm::Crc64Ms,
        CrcAlgorithm::Crc64Nvme,
        CrcAlgorithm::Crc64Redis,
        CrcAlgorithm::Crc64We,
        CrcAlgorithm::Crc64Xz,
    ];
    for alg in algorithms {
        let p = CrcParams::standard(alg);
        assert_eq!(checksum(alg, CHECK_INPUT), p.check, "check value of {}", p.name);
    }
}

#[test]
fn empty_input_iso_hdlc() {
    // An empty stream leaves the register at the initial value 0xffffffff;
    // the final XOR of 0xffffffff then yields zero, in agreement with the
    // independent reference implementation.
    assert_eq!(checksum(CrcAlgorithm::Crc32IsoHdlc, b""), 0x00000000);
    assert_eq!(
        checksum(CrcAlgorithm::Crc32IsoHdlc, b""),
        crc::Crc::<u32>::new(&crc::CRC_32_ISO_HDLC).checksum(b"") as u64
    );
}

#[test]
fn empty_input_all_widths() {
    // An empty stream leaves the register at the initial value; only the
    // output transform acts.
    assert_eq!(checksum(CrcAlgorithm::Crc32Aixm, b""), 0x0);
    assert_eq!(checksum(CrcAlgorithm::Crc32Cksum, b""), 0xffffffff);
    assert_eq!(checksum(CrcAlgorithm::Crc64Xz, b""), 0x0);
    assert_eq!(checksum(CrcAlgorithm::Crc64Ecma182, b""), 0x0);
}
