//! Incremental streaming checksum sessions.
//!
//! A `Digest` wraps one parameter set, its lookup table and the current
//! register, held in the engine's internal pre-output-transform orientation.
//! The ghost `processed` field records the bytes absorbed so far; the
//! invariant ties the register to exactly that stream, so `finalize` is
//! proved to return the checksum of everything fed in, however the stream
//! was chunked.

use vstd::prelude::*;

use crate::engine::{build_table, table_spec, update_reg};
use crate::model::width_mask;
use crate::params::{same_crc, standard_params, CrcAlgorithm, CrcError, CrcParams};

verus! {

/// A mutable checksum session.
pub struct Digest {
    pub params: CrcParams,
    pub table: Vec<u64>,
    pub state: u64,
    pub len: u64,
    pub processed: Ghost<Seq<u8>>,
}

impl Digest {
    /// The session invariant: the table belongs to the parameter set and the
    /// register is the model's register after absorbing exactly the recorded
    /// stream from the algorithm's initial register.
    pub open spec fn wf(self) -> bool {
        &&& self.params.wf()
        &&& self.table@ == table_spec(self.params.w(), self.params.refin, self.params.eff_poly())
        &&& self.state == self.params.update_spec(self.params.init_reg(), self.processed@)
        &&& self.state <= width_mask(self.params.w())
        &&& self.len == self.processed@.len()
    }

    /// Start a session for a standard algorithm.
    pub fn new(algorithm: CrcAlgorithm) -> (d: Digest)
        requires
            !algorithm.is_custom(),
        ensures
            d.wf(),
            d.params == standard_params(algorithm),
            d.processed@ == Seq::<u8>::empty(),
    {
        Self::new_with_params(CrcParams::standard(algorithm))
    }

    /// Start a session for an arbitrary well-formed parameter set.
    pub fn new_with_params(params: CrcParams) -> (d: Digest)
        requires
            params.wf(),
        ensures
            d.wf(),
            d.params == params,
            d.processed@ == Seq::<u8>::empty(),
    {
        proof {
            crate::params::lemma_params_bounds(params);
        }
        let table = build_table(params.width as u64, params.refin, params.eff_poly_exec());
        let state = params.init_reg_exec();
        Digest { params, table, state, len: 0, processed: Ghost(Seq::empty()) }
    }

    /// Absorb more bytes; a logical append to the one ongoing stream.  An
    /// empty slice changes nothing.
    pub fn update(&mut self, data: &[u8])
        requires
            old(self).wf(),
            old(self).processed@.len() + data@.len() <= u64::MAX,
        ensures
            final(self).wf(),
            final(self).params == old(self).params,
            final(self).processed@ == old(self).processed@ + data@,
    {
        proof {
            crate::params::lemma_params_bounds(self.params);
            crate::lemmas::lemma_update_append(
                self.params.w(),
                self.params.refin,
                self.params.eff_poly(),
                self.params.init_reg(),
                self.processed@,
                data@,
            );
        }
        self.state = update_reg(
            self.params.width as u64,
            self.params.refin,
            self.params.eff_poly_exec(),
            &self.table,
            self.state,
            data,
        );
        self.len = self.len + data.len() as u64;
        self.processed = Ghost(self.processed@ + data@);
    }

    /// The checksum of everything absorbed so far.  Reads the register
    /// without changing it: repeated calls return the same value.
    pub fn finalize(&self) -> (c: u64)
        requires
            self.wf(),
        ensures
            c == self.params.checksum_spec(self.processed@),
    {
        self.params.finalize_reg(self.state)
    }

    /// Begin a new independent stream under the same algorithm: restore the
    /// initial register and discard the accumulated bytes.  The lookup table
    /// is kept, not rebuilt.
    pub fn reset(&mut self)
        requires
            old(self).wf(),
        ensures
            final(self).wf(),
            final(self).params == old(self).params,
            final(self).table == old(self).table,
            final(self).processed@ == Seq::<u8>::empty(),
    {
        proof {
            crate::params::lemma_params_bounds(self.params);
        }
        self.state = self.params.init_reg_exec();
        self.len = 0;
        self.processed = Ghost(Seq::empty());
    }

    /// Append another session's whole stream to this one without touching any
    /// data: this session then stands as if it had absorbed its own bytes
    /// followed by the other's.  Both sessions must run the same algorithm;
    /// otherwise nothing changes and the mismatch is reported.
    pub fn combine(&mut self, other: &Digest) -> (r: Result<(), CrcError>)
        requires
            old(self).wf(),
            other.wf(),
            old(self).processed@.len() + other.processed@.len() <= u64::MAX,
        ensures
            final(self).wf(),
            final(self).params == old(self).params,
            final(self).table == old(self).table,
            same_crc(old(self).params, other.params) ==> r is Ok && final(self).processed@
                == old(self).processed@ + other.processed@,
            !same_crc(old(self).params, other.params) ==> r == Result::<(), CrcError>::Err(
                CrcError::MismatchedAlgorithmCombine,
            ) && *final(self) == *old(self),
    {
        let p = self.params;
        let q = other.params;
        if !(p.algorithm == q.algorithm && p.width == q.width && p.poly == q.poly && p.init
            == q.init && p.refin == q.refin && p.refout == q.refout && p.xorout == q.xorout
            && p.check == q.check) {
            return Err(CrcError::MismatchedAlgorithmCombine);
        }
        proof {
            crate::params::lemma_params_bounds(p);
            crate::lemmas::lemma_xor_bound(p.w(), self.state, p.init_reg());
        }
        let r0 = self.params.init_reg_exec();
        let y = crate::combine::shift_reg(
            p.width as u64,
            p.refin,
            self.params.eff_poly_exec(),
            self.state ^ r0,
            other.len,
        );
        proof {
            crate::combine::lemma_combine_registers(p, self.processed@, other.processed@);
            assert(other.state == p.update_spec(p.init_reg(), other.processed@));
            crate::lemmas::lemma_xor_bound(p.w(), y, other.state);
        }
        self.state = y ^ other.state;
        self.len = self.len + other.len;
        self.processed = Ghost(self.processed@ + other.processed@);
        Ok(())
    }

    /// Number of bytes absorbed since creation or the last reset.
    pub fn count(&self) -> (n: u64)
        requires
            self.wf(),
        ensures
            n == self.processed@.len(),
    {
        self.len
    }
}

} // verus!
