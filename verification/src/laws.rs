//! Laws relating the library's operations, stated and proved once over the
//! model that every contract speaks of.

use vstd::prelude::*;

use crate::digest::Digest;
use crate::engine::table_spec;
use crate::params::{same_crc, CrcParams};

verus! {

/// Register after absorbing a list of chunks one after another.
pub open spec fn run_chunks(p: CrcParams, r: u64, chunks: Seq<Seq<u8>>) -> u64
    decreases chunks.len(),
{
    if chunks.len() == 0 {
        r
    } else {
        run_chunks(p, p.update_spec(r, chunks[0]), chunks.skip(1))
    }
}

/// Absorbing chunks successively equals absorbing their concatenation in one
/// piece.
pub proof fn lemma_run_chunks_update(p: CrcParams, r: u64, chunks: Seq<Seq<u8>>)
    ensures
        run_chunks(p, r, chunks) == p.update_spec(r, chunks.flatten()),
    decreases chunks.len(),
{
    if chunks.len() == 0 {
        assert(chunks.flatten() =~= Seq::<u8>::empty());
    } else {
        lemma_run_chunks_update(p, p.update_spec(r, chunks[0]), chunks.skip(1));
        assert(chunks.drop_first() =~= chunks.skip(1));
        assert(chunks.flatten() =~= chunks[0] + chunks.skip(1).flatten());
        crate::lemmas::lemma_update_append(
            p.w(),
            p.refin,
            p.eff_poly(),
            r,
            chunks[0],
            chunks.skip(1).flatten(),
        );
    }
}

/// Streaming equivalence: for any byte string and any partition of it into
/// consecutive chunks, feeding the chunks through successive updates of one
/// session and then finalizing yields the checksum of the whole string.
pub proof fn lemma_streaming_equivalence(p: CrcParams, chunks: Seq<Seq<u8>>)
    ensures
        p.finalize_spec(run_chunks(p, p.init_reg(), chunks)) == p.checksum_spec(chunks.flatten()),
{
    lemma_run_chunks_update(p, p.init_reg(), chunks);
}

/// Reset idempotence: a session in the state `reset` (or creation) leaves it
/// finalizes any stream to that stream's own checksum, independent of
/// whatever the session absorbed before the reset.
pub proof fn lemma_reset_idempotence(d: Digest, x: Seq<u8>)
    requires
        d.wf(),
        d.processed@ == Seq::<u8>::empty(),
    ensures
        d.params.finalize_spec(d.params.update_spec(d.state, x)) == d.params.checksum_spec(x),
{
    assert(d.state == d.params.update_spec(d.params.init_reg(), Seq::<u8>::empty()));
}

/// Cache transparency: two parameter sets describing the same algorithm have
/// the same lookup table and the same checksum on every input, so a cached
/// table built for one serves the other, whichever was inserted first and by
/// whomever.
pub proof fn lemma_cache_transparency(p1: CrcParams, p2: CrcParams)
    requires
        same_crc(p1, p2),
    ensures
        table_spec(p1.w(), p1.refin, p1.eff_poly()) == table_spec(p2.w(), p2.refin, p2.eff_poly()),
        forall|data: Seq<u8>| p1.checksum_spec(data) == p2.checksum_spec(data),
{
    assert forall|data: Seq<u8>| p1.checksum_spec(data) == p2.checksum_spec(data) by {
        assert(p1.eff_poly() == p2.eff_poly());
        assert(p1.init_reg() == p2.init_reg());
    }
}

} // verus!
