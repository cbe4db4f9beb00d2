//! Algorithm identifiers and parameter sets.
//!
//! A `CrcParams` value describes one CRC variant: register width (32 or 64),
//! generator polynomial, initial register, input/output reflection, final XOR
//! and the published check value (the checksum of the ASCII string
//! "123456789").  Standard variants are a fixed table; custom variants are
//! validated at construction and carry no hidden truncation.

use vstd::prelude::*;

use crate::model::{crc_update, low_mask, reflect_bits, valid_width, width_mask};

verus! {

/// Identifier of a CRC variant: the catalogued standard algorithms plus one
/// open marker per width for caller-defined parameter sets.
#[derive(Clone, Copy, PartialEq, Eq, Structural, Debug)]
pub enum CrcAlgorithm {
    Crc32Aixm,
    Crc32Autosar,
    Crc32Base91D,
    Crc32Bzip2,
    Crc32CdRomEdc,
    Crc32Cksum,
    Crc32Iscsi,
    Crc32IsoHdlc,
    Crc32Jamcrc,
    Crc32Mef,
    Crc32Mpeg2,
    Crc32Xfer,
    Crc32Custom,
    Crc64Ecma182,
    Crc64GoIso,
    Crc64Ms,
    Crc64Nvme,
    Crc64Redis,
    Crc64We,
    Crc64Xz,
    Crc64Custom,
}

impl CrcAlgorithm {
    /// The two open markers carry caller-supplied parameters instead of a
    /// fixed constant.
    pub open spec fn is_custom(self) -> bool {
        self == CrcAlgorithm::Crc32Custom || self == CrcAlgorithm::Crc64Custom
    }

    /// Register width of the variant, in bits.
    pub open spec fn spec_width(self) -> u64 {
        match self {
            CrcAlgorithm::Crc32Aixm => 32,
            CrcAlgorithm::Crc32Autosar => 32,
            CrcAlgorithm::Crc32Base91D => 32,
            CrcAlgorithm::Crc32Bzip2 => 32,
            CrcAlgorithm::Crc32CdRomEdc => 32,
            CrcAlgorithm::Crc32Cksum => 32,
            CrcAlgorithm::Crc32Iscsi => 32,
            CrcAlgorithm::Crc32IsoHdlc => 32,
            CrcAlgorithm::Crc32Jamcrc => 32,
            CrcAlgorithm::Crc32Mef => 32,
            CrcAlgorithm::Crc32Mpeg2 => 32,
            CrcAlgorithm::Crc32Xfer => 32,
            CrcAlgorithm::Crc32Custom => 32,
            CrcAlgorithm::Crc64Ecma182 => 64,
            CrcAlgorithm::Crc64GoIso => 64,
            CrcAlgorithm::Crc64Ms => 64,
            CrcAlgorithm::Crc64Nvme => 64,
            CrcAlgorithm::Crc64Redis => 64,
            CrcAlgorithm::Crc64We => 64,
            CrcAlgorithm::Crc64Xz => 64,
            CrcAlgorithm::Crc64Custom => 64,
        }
    }
}

/// Configuration and programming errors.  A well-formed input always has a
/// well-defined checksum, so none of these is a recoverable data error.
#[derive(Clone, Copy, PartialEq, Eq, Structural, Debug)]
pub enum CrcError {
    /// Register width outside {32, 64}.
    UnsupportedWidth,
    /// A standard identifier dispatched through code expecting the other width.
    AlgorithmWidthMismatch,
    /// A custom parameter field exceeds the declared width's range.
    ParameterOutOfRange,
    /// A custom algorithm was requested where neither a cache nor per-call
    /// table construction is available.
    AllocationUnavailable,
    /// Combine invoked across two different algorithms.
    MismatchedAlgorithmCombine,
}

/// Immutable description of one CRC variant.
#[derive(Clone, Copy, PartialEq, Eq, Debug)]
pub struct CrcParams {
    pub algorithm: CrcAlgorithm,
    pub name: &'static str,
    pub width: u8,
    pub poly: u64,
    pub init: u64,
    pub refin: bool,
    pub refout: bool,
    pub xorout: u64,
    pub check: u64,
}

impl CrcParams {
    /// Register width as the model sees it.
    pub open spec fn w(self) -> u64 {
        self.width as u64
    }

    /// Width is one of the two supported ones and every numeric field fits it.
    pub open spec fn wf(self) -> bool {
        &&& valid_width(self.w())
        &&& self.poly <= width_mask(self.w())
        &&& self.init <= width_mask(self.w())
        &&& self.xorout <= width_mask(self.w())
        &&& self.check <= width_mask(self.w())
    }

    /// The generator polynomial in the register's own orientation.
    pub open spec fn eff_poly(self) -> u64 {
        if self.refin {
            reflect_bits(self.poly, self.w() as nat)
        } else {
            self.poly
        }
    }

    /// The initial register, in the register's own orientation.
    pub open spec fn init_reg(self) -> u64 {
        if self.refin {
            reflect_bits(self.init, self.w() as nat)
        } else {
            self.init
        }
    }

    /// Register after absorbing `data`, starting from register `r`.
    pub open spec fn update_spec(self, r: u64, data: Seq<u8>) -> u64 {
        crc_update(self.w(), self.refin, self.eff_poly(), r, data)
    }

    /// The one-time output transform: re-orient the register if the output
    /// reflection differs from the input one, then XOR the final value in.
    pub open spec fn finalize_spec(self, r: u64) -> u64 {
        (if self.refout != self.refin {
            reflect_bits(r, self.w() as nat)
        } else {
            r
        }) ^ self.xorout
    }

    /// The checksum of `data` under this parameter set.
    pub open spec fn checksum_spec(self, data: Seq<u8>) -> u64 {
        self.finalize_spec(self.update_spec(self.init_reg(), data))
    }

    /// Fields that identify an algorithm for table-reuse purposes: two
    /// parameter sets agreeing on these behave identically.
    pub open spec fn cache_key(self) -> (u64, u64, bool, bool, u64, u64) {
        (self.poly, self.init, self.refin, self.refout, self.xorout, self.check)
    }
}

/// The catalogued parameter set of a standard identifier.
pub open spec fn standard_params(alg: CrcAlgorithm) -> CrcParams {
    match alg {
        CrcAlgorithm::Crc32Aixm => (CrcParams {
            algorithm: alg,
            name: "CRC-32/AIXM",
            width: 32,
            poly: 0x814141ab,
            init: 0x0,
            refin: false,
            refout: false,
            xorout: 0x0,
            check: 0x3010bf7f,
        }),
        CrcAlgorithm::Crc32Autosar => (CrcParams {
            algorithm: alg,
            name: "CRC-32/AUTOSAR",
            width: 32,
            poly: 0xf4acfb13,
            init: 0xffffffff,
            refin: true,
            refout: true,
            xorout: 0xffffffff,
            check: 0x1697d06a,
        }),
        CrcAlgorithm::Crc32Base91D => (CrcParams {
            algorithm: alg,
            name: "CRC-32/BASE91-D",
            width: 32,
            poly: 0xa833982b,
            init: 0xffffffff,
            refin: true,
            refout: true,
            xorout: 0xffffffff,
            check: 0x87315576,
        }),
        CrcAlgorithm::Crc32Bzip2 => (CrcParams {
            algorithm: alg,
            name: "CRC-32/BZIP2",
            width: 32,
            poly: 0x04c11db7,
            init: 0xffffffff,
            refin: false,
            refout: false,
            xorout: 0xffffffff,
            check: 0xfc891918,
        }),
        CrcAlgorithm::Crc32CdRomEdc => (CrcParams {
            algorithm: alg,
            name: "CRC-32/CD-ROM-EDC",
            width: 32,
            poly: 0x8001801b,
            init: 0x0,
            refin: true,
            refout: true,
            xorout: 0x0,
            check: 0x6ec2edc4,
        }),
        CrcAlgorithm::Crc32Cksum => (CrcParams {
            algorithm: alg,
            name: "CRC-32/CKSUM",
            width: 32,
            poly: 0x04c11db7,
            init: 0x0,
            refin: false,
            refout: false,
            xorout: 0xffffffff,
            check: 0x765e7680,
        }),
        CrcAlgorithm::Crc32Iscsi => (CrcParams {
            algorithm: alg,
            name: "CRC-32/ISCSI",
            width: 32,
            poly: 0x1edc6f41,
            init: 0xffffffff,
            refin: true,
            refout: true,
            xorout: 0xffffffff,
            check: 0xe3069283,
        }),
        CrcAlgorithm::Crc32IsoHdlc => (CrcParams {
            algorithm: alg,
            name: "CRC-32/ISO-HDLC",
            width: 32,
            poly: 0x04c11db7,
            init: 0xffffffff,
            refin: true,
            refout: true,
            xorout: 0xffffffff,
            check: 0xcbf43926,
        }),
        CrcAlgorithm::Crc32Jamcrc => (CrcParams {
            algorithm: alg,
            name: "CRC-32/JAMCRC",
            width: 32,
            poly: 0x04c11db7,
            init: 0xffffffff,
            refin: true,
            refout: true,
            xorout: 0x0,
            check: 0x340bc6d9,
        }),
        CrcAlgorithm::Crc32Mef => (CrcParams {
            algorithm: alg,
            name: "CRC-32/MEF",
            width: 32,
            poly: 0x741b8cd7,
            init: 0xffffffff,
            refin: true,
            refout: true,
            xorout: 0x0,
            check: 0xd2c22f51,
        }),
        CrcAlgorithm::Crc32Mpeg2 => (CrcParams {
            algorithm: alg,
            name: "CRC-32/MPEG-2",
            width: 32,
            poly: 0x04c11db7,
            init: 0xffffffff,
            refin: false,
            refout: false,
            xorout: 0x0,
            check: 0x0376e6e7,
        }),
        CrcAlgorithm::Crc32Xfer => (CrcParams {
            algorithm: alg,
            name: "CRC-32/XFER",
            width: 32,
            poly: 0x000000af,
            init: 0x0,
            refin: false,
            refout: false,
            xorout: 0x0,
            check: 0xbd0be338,
        }),
        CrcAlgorithm::Crc64Ecma182 => (CrcParams {
            algorithm: alg,
            name: "CRC-64/ECMA-182",
            width: 64,
            poly: 0x42f0e1eba9ea3693,
            init: 0x0,
            refin: false,
            refout: false,
            xorout: 0x0,
            check: 0x6c40df5f0b497347,
        }),
        CrcAlgorithm::Crc64GoIso => (CrcParams {
            algorithm: alg,
            name: "CRC-64/GO-ISO",
            width: 64,
            poly: 0x000000000000001b,
            init: 0xffffffffffffffff,
            refin: true,
            refout: true,
            xorout: 0xffffffffffffffff,
            check: 0xb90956c775a41001,
        }),
        CrcAlgorithm::Crc64Ms => (CrcParams {
            algorithm: alg,
            name: "CRC-64/MS",
            width: 64,
            poly: 0x259c84cba6426349,
            init: 0xffffffffffffffff,
            refin: true,
            refout: true,
            xorout: 0x0,
            check: 0x75d4b74f024eceea,
        }),
        CrcAlgorithm::Crc64Nvme => (CrcParams {
            algorithm: alg,
            name: "CRC-64/NVME",
            width: 64,
            poly: 0xad93d23594c93659,
            init: 0xffffffffffffffff,
            refin: true,
            refout: true,
            xorout: 0xffffffffffffffff,
            check: 0xae8b14860a799888,
        }),
        CrcAlgorithm::Crc64Redis => (CrcParams {
            algorithm: alg,
            name: "CRC-64/REDIS",
            width: 64,
            poly: 0xad93d23594c935a9,
            init: 0x0,
            refin: true,
            refout: true,
            xorout: 0x0,
            check: 0xe9c6d914c4b8d9ca,
        }),
        CrcAlgorithm::Crc64We => (CrcParams {
            algorithm: alg,
            name: "CRC-64/WE",
            width: 64,
            poly: 0x42f0e1eba9ea3693,
            init: 0xffffffffffffffff,
            refin: false,
            refout: false,
            xorout: 0xffffffffffffffff,
            check: 0x62ec59e3f1a4f00a,
        }),
        CrcAlgorithm::Crc64Xz => (CrcParams {
            algorithm: alg,
            name: "CRC-64/XZ",
            width: 64,
            poly: 0x42f0e1eba9ea3693,
            init: 0xffffffffffffffff,
            refin: true,
            refout: true,
            xorout: 0xffffffffffffffff,
            check: 0x995dc9bbdf1939fa,
        }),
        CrcAlgorithm::Crc32Custom => (CrcParams {
            algorithm: alg,
            name: "CRC-32/CUSTOM",
            width: 32,
            poly: 0x0,
            init: 0x0,
            refin: false,
            refout: false,
            xorout: 0x0,
            check: 0x0,
        }),
        CrcAlgorithm::Crc64Custom => (CrcParams {
            algorithm: alg,
            name: "CRC-64/CUSTOM",
            width: 64,
            poly: 0x0,
            init: 0x0,
            refin: false,
            refout: false,
            xorout: 0x0,
            check: 0x0,
        }),
    }
}

impl CrcParams {
    /// The parameter set of a standard identifier.  The two custom markers
    /// carry no fixed constant and are excluded.
    pub fn standard(alg: CrcAlgorithm) -> (p: CrcParams)
        requires
            !alg.is_custom(),
        ensures
            p == standard_params(alg),
            p.wf(),
            p.algorithm == alg,
            p.w() == alg.spec_width(),
    {
        match alg {
            CrcAlgorithm::Crc32Aixm => CrcParams {
                algorithm: alg,
                name: "CRC-32/AIXM",
                width: 32,
                poly: 0x814141ab,
                init: 0x0,
                refin: false,
                refout: false,
                xorout: 0x0,
                check: 0x3010bf7f,
            },
            CrcAlgorithm::Crc32Autosar => CrcParams {
                algorithm: alg,
                name: "CRC-32/AUTOSAR",
                width: 32,
                poly: 0xf4acfb13,
                init: 0xffffffff,
                refin: true,
                refout: true,
                xorout: 0xffffffff,
                check: 0x1697d06a,
            },
            CrcAlgorithm::Crc32Base91D => CrcParams {
                algorithm: alg,
                name: "CRC-32/BASE91-D",
                width: 32,
                poly: 0xa833982b,
                init: 0xffffffff,
                refin: true,
                refout: true,
                xorout: 0xffffffff,
                check: 0x87315576,
            },
            CrcAlgorithm::Crc32Bzip2 => CrcParams {
                algorithm: alg,
                name: "CRC-32/BZIP2",
                width: 32,
                poly: 0x04c11db7,
                init: 0xffffffff,
                refin: false,
                refout: false,
                xorout: 0xffffffff,
                check: 0xfc891918,
            },
            CrcAlgorithm::Crc32CdRomEdc => CrcParams {
                algorithm: alg,
                name: "CRC-32/CD-ROM-EDC",
                width: 32,
                poly: 0x8001801b,
                init: 0x0,
                refin: true,
                refout: true,
                xorout: 0x0,
                check: 0x6ec2edc4,
            },
            CrcAlgorithm::Crc32Cksum => CrcParams {
                algorithm: alg,
                name: "CRC-32/CKSUM",
                width: 32,
                poly: 0x04c11db7,
                init: 0x0,
                refin: false,
                refout: false,
                xorout: 0xffffffff,
                check: 0x765e7680,
            },
            CrcAlgorithm::Crc32Iscsi => CrcParams {
                algorithm: alg,
                name: "CRC-32/ISCSI",
                width: 32,
                poly: 0x1edc6f41,
                init: 0xffffffff,
                refin: true,
                refout: true,
                xorout: 0xffffffff,
                check: 0xe3069283,
            },
            CrcAlgorithm::Crc32IsoHdlc => CrcParams {
                algorithm: alg,
                name: "CRC-32/ISO-HDLC",
                width: 32,
                poly: 0x04c11db7,
                init: 0xffffffff,
                refin: true,
                refout: true,
                xorout: 0xffffffff,
                check: 0xcbf43926,
            },
            CrcAlgorithm::Crc32Jamcrc => CrcParams {
                algorithm: alg,
                name: "CRC-32/JAMCRC",
                width: 32,
                poly: 0x04c11db7,
                init: 0xffffffff,
                refin: true,
                refout: true,
                xorout: 0x0,
                check: 0x340bc6d9,
            },
            CrcAlgorithm::Crc32Mef => CrcParams {
                algorithm: alg,
                name: "CRC-32/MEF",
                width: 32,
                poly: 0x741b8cd7,
                init: 0xffffffff,
                refin: true,
                refout: true,
                xorout: 0x0,
                check: 0xd2c22f51,
            },
            CrcAlgorithm::Crc32Mpeg2 => CrcParams {
                algorithm: alg,
                name: "CRC-32/MPEG-2",
                width: 32,
                poly: 0x04c11db7,
                init: 0xffffffff,
                refin: false,
                refout: false,
                xorout: 0x0,
                check: 0x0376e6e7,
            },
            CrcAlgorithm::Crc32Xfer => CrcParams {
                algorithm: alg,
                name: "CRC-32/XFER",
                width: 32,
                poly: 0x000000af,
                init: 0x0,
                refin: false,
                refout: false,
                xorout: 0x0,
                check: 0xbd0be338,
            },
            CrcAlgorithm::Crc64Ecma182 => CrcParams {
                algorithm: alg,
                name: "CRC-64/ECMA-182",
                width: 64,
                poly: 0x42f0e1eba9ea3693,
                init: 0x0,
                refin: false,
                refout: false,
                xorout: 0x0,
                check: 0x6c40df5f0b497347,
            },
            CrcAlgorithm::Crc64GoIso => CrcParams {
                algorithm: alg,
                name: "CRC-64/GO-ISO",
                width: 64,
                poly: 0x000000000000001b,
                init: 0xffffffffffffffff,
                refin: true,
                refout: true,
                xorout: 0xffffffffffffffff,
                check: 0xb90956c775a41001,
            },
            CrcAlgorithm::Crc64Ms => CrcParams {
                algorithm: alg,
                name: "CRC-64/MS",
                width: 64,
                poly: 0x259c84cba6426349,
                init: 0xffffffffffffffff,
                refin: true,
                refout: true,
                xorout: 0x0,
                check: 0x75d4b74f024eceea,
            },
            CrcAlgorithm::Crc64Nvme => CrcParams {
                algorithm: alg,
                name: "CRC-64/NVME",
                width: 64,
                poly: 0xad93d23594c93659,
                init: 0xffffffffffffffff,
                refin: true,
                refout: true,
                xorout: 0xffffffffffffffff,
                check: 0xae8b14860a799888,
            },
            CrcAlgorithm::Crc64Redis => CrcParams {
                algorithm: alg,
                name: "CRC-64/REDIS",
                width: 64,
                poly: 0xad93d23594c935a9,
                init: 0x0,
                refin: true,
                refout: true,
                xorout: 0x0,
                check: 0xe9c6d914c4b8d9ca,
            },
            CrcAlgorithm::Crc64We => CrcParams {
                algorithm: alg,
                name: "CRC-64/WE",
                width: 64,
                poly: 0x42f0e1eba9ea3693,
                init: 0xffffffffffffffff,
                refin: false,
                refout: false,
                xorout: 0xffffffffffffffff,
                check: 0x62ec59e3f1a4f00a,
            },
            CrcAlgorithm::Crc64Xz => CrcParams {
                algorithm: alg,
                name: "CRC-64/XZ",
                width: 64,
                poly: 0x42f0e1eba9ea3693,
                init: 0xffffffffffffffff,
                refin: true,
                refout: true,
                xorout: 0xffffffffffffffff,
                check: 0x995dc9bbdf1939fa,
            },
            CrcAlgorithm::Crc32Custom => CrcParams {
                algorithm: alg,
                name: "CRC-32/CUSTOM",
                width: 32,
                poly: 0x0,
                init: 0x0,
                refin: false,
                refout: false,
                xorout: 0x0,
                check: 0x0,
            },
            CrcAlgorithm::Crc64Custom => CrcParams {
                algorithm: alg,
                name: "CRC-64/CUSTOM",
                width: 64,
                poly: 0x0,
                init: 0x0,
                refin: false,
                refout: false,
                xorout: 0x0,
                check: 0x0,
            },
        }
    }

    /// Construct a custom parameter set, output reflection implied equal to
    /// input reflection.  Fields wider than the declared width are rejected,
    /// never truncated.
    pub fn new(
        name: &'static str,
        width: u8,
        poly: u64,
        init: u64,
        refin: bool,
        xorout: u64,
        check: u64,
    ) -> (r: Result<CrcParams, CrcError>)
        ensures
            width != 32 && width != 64 ==> r == Result::<CrcParams, CrcError>::Err(
                CrcError::UnsupportedWidth,
            ),
            valid_width(width as u64) && (poly > width_mask(width as u64) || init > width_mask(
                width as u64,
            ) || xorout > width_mask(width as u64) || check > width_mask(width as u64)) ==> r
                == Result::<CrcParams, CrcError>::Err(CrcError::ParameterOutOfRange),
            valid_width(width as u64) && poly <= width_mask(width as u64) && init <= width_mask(
                width as u64,
            ) && xorout <= width_mask(width as u64) && check <= width_mask(width as u64) ==> {
                &&& r is Ok
                &&& r->Ok_0.wf()
                &&& r->Ok_0 == (CrcParams {
                    algorithm: if width == 32 {
                        CrcAlgorithm::Crc32Custom
                    } else {
                        CrcAlgorithm::Crc64Custom
                    },
                    name,
                    width,
                    poly,
                    init,
                    refin,
                    refout: refin,
                    xorout,
                    check,
                })
            },
    {
        Self::new_with_refout(name, width, poly, init, refin, refin, xorout, check)
    }

    /// Construct a custom parameter set with independent output reflection.
    pub fn new_with_refout(
        name: &'static str,
        width: u8,
        poly: u64,
        init: u64,
        refin: bool,
        refout: bool,
        xorout: u64,
        check: u64,
    ) -> (r: Result<CrcParams, CrcError>)
        ensures
            width != 32 && width != 64 ==> r == Result::<CrcParams, CrcError>::Err(
                CrcError::UnsupportedWidth,
            ),
            valid_width(width as u64) && (poly > width_mask(width as u64) || init > width_mask(
                width as u64,
            ) || xorout > width_mask(width as u64) || check > width_mask(width as u64)) ==> r
                == Result::<CrcParams, CrcError>::Err(CrcError::ParameterOutOfRange),
            valid_width(width as u64) && poly <= width_mask(width as u64) && init <= width_mask(
                width as u64,
            ) && xorout <= width_mask(width as u64) && check <= width_mask(width as u64) ==> {
                &&& r is Ok
                &&& r->Ok_0.wf()
                &&& r->Ok_0 == (CrcParams {
                    algorithm: if width == 32 {
                        CrcAlgorithm::Crc32Custom
                    } else {
                        CrcAlgorithm::Crc64Custom
                    },
                    name,
                    width,
                    poly,
                    init,
                    refin,
                    refout,
                    xorout,
                    check,
                })
            },
    {
        if width != 32 && width != 64 {
            return Err(CrcError::UnsupportedWidth);
        }
        let mask = if width == 32 {
            0xffff_ffffu64
        } else {
            0xffff_ffff_ffff_ffffu64
        };
        if poly > mask || init > mask || xorout > mask || check > mask {
            return Err(CrcError::ParameterOutOfRange);
        }
        let algorithm = if width == 32 {
            CrcAlgorithm::Crc32Custom
        } else {
            CrcAlgorithm::Crc64Custom
        };
        Ok(CrcParams { algorithm, name, width, poly, init, refin, refout, xorout, check })
    }
}

impl CrcParams {
    /// The generator polynomial in the register's own orientation, at run time.
    pub fn eff_poly_exec(&self) -> (r: u64)
        requires
            self.wf(),
        ensures
            r == self.eff_poly(),
            r <= width_mask(self.w()),
    {
        proof {
            lemma_params_bounds(*self);
        }
        if self.refin {
            crate::reflect::reflect_low(self.poly, self.width as u64)
        } else {
            self.poly
        }
    }

    /// The initial register in the register's own orientation, at run time.
    pub fn init_reg_exec(&self) -> (r: u64)
        requires
            self.wf(),
        ensures
            r == self.init_reg(),
            r <= width_mask(self.w()),
    {
        proof {
            lemma_params_bounds(*self);
        }
        if self.refin {
            crate::reflect::reflect_low(self.init, self.width as u64)
        } else {
            self.init
        }
    }

    /// Apply the one-time output transform to a register.
    pub fn finalize_reg(&self, r: u64) -> (c: u64)
        requires
            self.wf(),
            r <= width_mask(self.w()),
        ensures
            c == self.finalize_spec(r),
            c <= width_mask(self.w()),
    {
        let oriented = if self.refout != self.refin {
            crate::reflect::reflect_low(r, self.width as u64)
        } else {
            r
        };
        proof {
            lemma_low_mask_width(self.w());
            if self.refout != self.refin {
                crate::reflect::lemma_reflect_bound(r, self.w() as nat);
            }
            crate::lemmas::lemma_xor_bound(self.w(), oriented, self.xorout);
        }
        oriented ^ self.xorout
    }

    /// Undo the one-time output transform, recovering the register a finalized
    /// checksum came from.
    pub fn unfinalize_reg(&self, c: u64) -> (r: u64)
        requires
            self.wf(),
            c <= width_mask(self.w()),
        ensures
            r <= width_mask(self.w()),
            forall|reg: u64|
                reg <= width_mask(self.w()) && c == self.finalize_spec(reg) ==> r == reg,
    {
        proof {
            crate::lemmas::lemma_xor_bound(self.w(), c, self.xorout);
        }
        let undone = c ^ self.xorout;
        let r = if self.refout != self.refin {
            crate::reflect::reflect_low(undone, self.width as u64)
        } else {
            undone
        };
        proof {
            lemma_low_mask_width(self.w());
            if self.refout != self.refin {
                crate::reflect::lemma_reflect_bound(undone, self.w() as nat);
            }
            assert forall|reg: u64|
                reg <= width_mask(self.w()) && c == self.finalize_spec(reg) implies r == reg by {
                crate::lemmas::xor_facts(
                    if self.refout != self.refin {
                        reflect_bits(reg, self.w() as nat)
                    } else {
                        reg
                    },
                    self.xorout,
                    0,
                );
                if self.refout != self.refin {
                    crate::reflect::lemma_reflect_involute(reg, self.w() as nat);
                }
            }
        }
        r
    }
}

/// Two parameter sets describe the same algorithm: same identifier, same
/// width and the same computation-relevant fields.  The display name is a
/// label and takes no part.
pub open spec fn same_crc(a: CrcParams, b: CrcParams) -> bool {
    &&& a.algorithm == b.algorithm
    &&& a.width == b.width
    &&& a.cache_key() == b.cache_key()
}

/// For a supported width, the low-bits mask of that width is the width mask.
pub proof fn lemma_low_mask_width(w: u64)
    requires
        valid_width(w),
    ensures
        low_mask(w as nat) == width_mask(w),
{
    if w == 32 {
        assert(((1u64 << 32u64) - 1) as u64 == 0xffff_ffffu64) by (bit_vector);
    }
}

/// A well-formed parameter set has a well-bounded effective polynomial and
/// initial register.
pub proof fn lemma_params_bounds(p: CrcParams)
    requires
        p.wf(),
    ensures
        p.eff_poly() <= width_mask(p.w()),
        p.init_reg() <= width_mask(p.w()),
{
    lemma_low_mask_width(p.w());
    if p.refin {
        crate::reflect::lemma_reflect_bound(p.poly, p.w() as nat);
        crate::reflect::lemma_reflect_bound(p.init, p.w() as nat);
    }
}

} // verus!
