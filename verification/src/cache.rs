//! Memoized lookup tables for caller-defined algorithms.
//!
//! Building a 256-entry table costs 2048 register steps; a process using the
//! same custom parameter set repeatedly should pay that once.  The cache maps
//! the computation-relevant fields of a parameter set to its table; entries
//! are never evicted.  `get_or_insert` hands out a copy of the table, so a
//! caller holding the cache behind a lock can release it before running the
//! byte-wise reduction; the contents are proved to depend on the parameter
//! set alone, never on the cache's state, history or call order.

use vstd::prelude::*;

use crate::engine::{build_table, table_spec, update_reg};
use crate::params::{same_crc, CrcAlgorithm, CrcError, CrcParams};

verus! {

/// One cached entry: a parameter set and its lookup table.
pub struct CacheEntry {
    pub params: CrcParams,
    pub table: Vec<u64>,
}

/// Process-lifetime store of lookup tables for custom parameter sets.
pub struct Cache {
    pub entries: Vec<CacheEntry>,
}

impl Cache {
    /// Every entry is well formed, carries exactly the table of its parameter
    /// set, and no two entries describe the same algorithm.
    pub open spec fn wf(self) -> bool {
        &&& forall|i: int|
            0 <= i < self.entries@.len() ==> (#[trigger] self.entries@[i]).params.wf()
        &&& forall|i: int|
            0 <= i < self.entries@.len() ==> (#[trigger] self.entries@[i]).table@ == table_spec(
                self.entries@[i].params.w(),
                self.entries@[i].params.refin,
                self.entries@[i].params.eff_poly(),
            )
        &&& forall|i: int, j: int|
            0 <= i < j < self.entries@.len() ==> !same_crc(
                (#[trigger] self.entries@[i]).params,
                (#[trigger] self.entries@[j]).params,
            )
    }

    /// An empty cache.
    pub fn new() -> (c: Cache)
        ensures
            c.wf(),
            c.entries@.len() == 0,
    {
        Cache { entries: Vec::new() }
    }

    /// Number of distinct parameter sets cached so far.
    pub fn len(&self) -> (n: usize)
        ensures
            n == self.entries@.len(),
    {
        self.entries.len()
    }

    /// Index of the entry describing the same algorithm, if one exists.
    fn find(&self, params: &CrcParams) -> (r: Option<usize>)
        requires
            self.wf(),
        ensures
            match r {
                Some(i) => 0 <= i < self.entries@.len() && same_crc(
                    self.entries@[i as int].params,
                    *params,
                ),
                None => forall|i: int|
                    0 <= i < self.entries@.len() ==> !same_crc(
                        (#[trigger] self.entries@[i]).params,
                        *params,
                    ),
            },
    {
        let mut i: usize = 0;
        while i < self.entries.len()
            invariant
                i <= self.entries@.len(),
                forall|k: int|
                    0 <= k < i ==> !same_crc((#[trigger] self.entries@[k]).params, *params),
            decreases self.entries@.len() - i,
        {
            let e = &self.entries[i].params;
            if e.algorithm == params.algorithm && e.width == params.width && e.poly == params.poly
                && e.init == params.init && e.refin == params.refin && e.refout == params.refout
                && e.xorout == params.xorout && e.check == params.check {
                return Some(i);
            }
            i = i + 1;
        }
        None
    }

    /// The lookup table of a parameter set: a copy of the cached one, or a
    /// freshly built table that is inserted before being handed out.  Either
    /// way the contents equal the table the parameter set defines.
    pub fn get_or_insert(&mut self, params: CrcParams) -> (t: Vec<u64>)
        requires
            old(self).wf(),
            params.wf(),
        ensures
            final(self).wf(),
            t@ == table_spec(params.w(), params.refin, params.eff_poly()),
            old(self).entries@.len() <= final(self).entries@.len() <= old(self).entries@.len()
                + 1,
            exists|i: int|
                0 <= i < final(self).entries@.len() && same_crc(
                    (#[trigger] final(self).entries@[i]).params,
                    params,
                ),
    {
        match self.find(&params) {
            Some(i) => {
                let t = copy_table(&self.entries[i].table);
                proof {
                    assert(same_crc(self.entries@[i as int].params, params));
                }
                t
            },
            None => {
                proof {
                    crate::params::lemma_params_bounds(params);
                }
                let t = build_table(params.width as u64, params.refin, params.eff_poly_exec());
                let t2 = copy_table(&t);
                let ghost pre = self.entries@;
                self.entries.push(CacheEntry { params, table: t });
                proof {
                    assert(self.entries@[pre.len() as int].params == params);
                    assert forall|i: int, j: int|
                        0 <= i < j < self.entries@.len() implies !same_crc(
                        (#[trigger] self.entries@[i]).params,
                        (#[trigger] self.entries@[j]).params,
                    ) by {
                        if j < pre.len() {
                        } else {
                            assert(self.entries@[i] == pre[i]);
                        }
                    }
                }
                t2
            },
        }
    }

    /// One-shot checksum through the cache: provably the same value as a
    /// computation that never touched a cache, whatever the cache held.
    pub fn checksum(&mut self, params: CrcParams, data: &[u8]) -> (c: u64)
        requires
            old(self).wf(),
            params.wf(),
        ensures
            final(self).wf(),
            c == params.checksum_spec(data@),
    {
        proof {
            crate::params::lemma_params_bounds(params);
        }
        let table = self.get_or_insert(params);
        let r = update_reg(
            params.width as u64,
            params.refin,
            params.eff_poly_exec(),
            &table,
            params.init_reg_exec(),
            data,
        );
        params.finalize_reg(r)
    }
}

/// An element-for-element copy of a lookup table.
fn copy_table(t: &Vec<u64>) -> (c: Vec<u64>)
    ensures
        c@ == t@,
{
    let mut c: Vec<u64> = Vec::new();
    let mut i: usize = 0;
    while i < t.len()
        invariant
            i <= t@.len(),
            c@ == t@.take(i as int),
        decreases t@.len() - i,
    {
        c.push(t[i]);
        proof {
            assert(c@ =~= t@.take(i as int + 1));
        }
        i = i + 1;
    }
    proof {
        assert(t@.take(t@.len() as int) =~= t@);
    }
    c
}

/// Which strategy serves custom algorithms in a given deployment: a shared
/// cache, a throwaway table per call, or no custom algorithms at all.
#[derive(Clone, Copy, PartialEq, Eq, Structural, Debug)]
pub enum CacheConfig {
    Cached,
    PerCall,
    RejectCustom,
}

/// Checksum under a configured caching strategy.  Standard algorithms never
/// consult the cache; a custom parameter set uses the cache, builds a
/// throwaway table, or is rejected, according to the configuration.
pub fn checksum_with_config(
    config: CacheConfig,
    cache: &mut Cache,
    params: CrcParams,
    data: &[u8],
) -> (r: Result<u64, CrcError>)
    requires
        old(cache).wf(),
        params.wf(),
    ensures
        final(cache).wf(),
        params.algorithm.is_custom() && config == CacheConfig::RejectCustom ==> r
            == Result::<u64, CrcError>::Err(CrcError::AllocationUnavailable),
        !(params.algorithm.is_custom() && config == CacheConfig::RejectCustom) ==> r
            == Result::<u64, CrcError>::Ok(params.checksum_spec(data@)),
        !params.algorithm.is_custom() ==> *final(cache) == *old(cache),
{
    let is_custom = params.algorithm == CrcAlgorithm::Crc32Custom || params.algorithm
        == CrcAlgorithm::Crc64Custom;
    if !is_custom {
        Ok(crate::checksum_with_params(params, data))
    } else {
        match config {
            CacheConfig::Cached => Ok(cache.checksum(params, data)),
            CacheConfig::PerCall => Ok(crate::checksum_with_params(params, data)),
            CacheConfig::RejectCustom => Err(CrcError::AllocationUnavailable),
        }
    }
}

} // verus!
