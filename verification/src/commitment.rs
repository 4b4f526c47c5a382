//! The builder commitment: a SHA-256 digest that binds the namespace
//! payloads of a block to its namespace table.
//!
//! What is hashed is the length of the namespace payloads, the length of the
//! table and the length of the metadata, each in eight bytes, and then the
//! three byte strings themselves. The metadata of a block is its namespace
//! table, so the table is hashed twice. Blocks have always been committed to
//! in this way, and a commitment that left the second copy out would no
//! longer match theirs.

use vstd::prelude::*;
use sha2::Digest;
use crate::encoding::BlockView;
use crate::uint_bytes::{le64, le64_at, push_bytes, push_u64};

verus! {

/// The SHA-256 digest of `data`. It is taken on trust from the `sha2` crate;
/// nothing is claimed of it here but that it depends on `data` alone.
pub uninterp spec fn sha256(data: Seq<u8>) -> Seq<u8>;

/// Calls `sha2::Sha256::digest`, the one-shot form of `Digest` for SHA-256.
/// The contract claims that the 32 bytes returned are the SHA-256 digest of
/// `data`, the value named `sha256(data@)`; this is believed, not proved.
#[verifier::external_body]
fn sha256_digest(data: &[u8]) -> (digest: [u8; 32])
    ensures
        digest@ == sha256(data@),
{
    sha2::Sha256::digest(data).into()
}

/// The bytes that are hashed for the commitment of a block with the given
/// namespace payloads and table, and with the given metadata.
pub open spec fn commitment_preimage(
    ns_payloads: Seq<u8>,
    ns_table: Seq<u8>,
    metadata: Seq<u8>,
) -> Seq<u8> {
    le64(ns_payloads.len() as int) + le64(ns_table.len() as int) + le64(metadata.len() as int)
        + ns_payloads + ns_table + metadata
}

/// The builder commitment of `block` with `metadata`.
pub open spec fn builder_commitment_of(block: BlockView, metadata: Seq<u8>) -> Seq<u8> {
    sha256(commitment_preimage(block.ns_payloads, block.ns_table, metadata))
}

/// Writes out the bytes that are hashed for the commitment.
pub fn commitment_preimage_bytes(ns_payloads: &[u8], ns_table: &[u8], metadata: &[u8]) -> (bytes:
    Vec<u8>)
    ensures
        bytes@ == commitment_preimage(ns_payloads@, ns_table@, metadata@),
{
    let mut bytes: Vec<u8> = Vec::new();
    push_u64(&mut bytes, ns_payloads.len() as u64);
    push_u64(&mut bytes, ns_table.len() as u64);
    push_u64(&mut bytes, metadata.len() as u64);
    push_bytes(&mut bytes, ns_payloads);
    push_bytes(&mut bytes, ns_table);
    push_bytes(&mut bytes, metadata);
    bytes
}

/// The digest of the bytes that are hashed for the commitment.
pub fn commit(ns_payloads: &[u8], ns_table: &[u8], metadata: &[u8]) -> (digest: [u8; 32])
    ensures
        digest@ == sha256(commitment_preimage(ns_payloads@, ns_table@, metadata@)),
{
    let bytes = commitment_preimage_bytes(ns_payloads, ns_table, metadata);
    sha256_digest(bytes.as_slice())
}

/// The commitment depends on the bytes of the namespace payloads, of the
/// table and of the metadata, and on nothing else: blocks with the same
/// bytes have the same commitment.
pub proof fn lemma_commitment_stable(
    a: BlockView,
    a_metadata: Seq<u8>,
    b: BlockView,
    b_metadata: Seq<u8>,
)
    requires
        a.ns_payloads == b.ns_payloads,
        a.ns_table == b.ns_table,
        a_metadata == b_metadata,
    ensures
        builder_commitment_of(a, a_metadata) == builder_commitment_of(b, b_metadata),
{
}

/// Three numbers of eight bytes each at the front of a byte string are read
/// from their own bytes, and three byte strings behind them stand where the
/// lengths before them add up to.
proof fn lemma_framed_parts(
    a: Seq<u8>,
    b: Seq<u8>,
    c: Seq<u8>,
    p: Seq<u8>,
    t: Seq<u8>,
    m: Seq<u8>,
)
    requires
        a.len() == 8,
        b.len() == 8,
        c.len() == 8,
    ensures
        (a + b + c + p + t + m).len() == 24 + p.len() + t.len() + m.len(),
        le64_at(a + b + c + p + t + m, 0) == le64_at(a, 0),
        le64_at(a + b + c + p + t + m, 8) == le64_at(b, 0),
        le64_at(a + b + c + p + t + m, 16) == le64_at(c, 0),
        (a + b + c + p + t + m).subrange(24, 24 + p.len() as int) == p,
        (a + b + c + p + t + m).subrange(
            24 + p.len() as int,
            24 + p.len() as int + t.len() as int,
        ) == t,
        (a + b + c + p + t + m).subrange(
            24 + p.len() as int + t.len() as int,
            24 + p.len() as int + t.len() as int + m.len() as int,
        ) == m,
{
    let all = a + b + c + p + t + m;
    assert(all.subrange(24, 24 + p.len() as int) =~= p);
    assert(all.subrange(24 + p.len() as int, 24 + p.len() as int + t.len() as int) =~= t);
    assert(all.subrange(
        24 + p.len() as int + t.len() as int,
        24 + p.len() as int + t.len() as int + m.len() as int,
    ) =~= m);
}

/// The three lengths can be read back from the first 24 bytes of what is
/// hashed, and the three byte strings stand behind them.
pub proof fn lemma_preimage_parts(p: Seq<u8>, t: Seq<u8>, m: Seq<u8>)
    requires
        p.len() <= u64::MAX,
        t.len() <= u64::MAX,
        m.len() <= u64::MAX,
    ensures
        commitment_preimage(p, t, m).len() == 24 + p.len() + t.len() + m.len(),
        le64_at(commitment_preimage(p, t, m), 0) == p.len(),
        le64_at(commitment_preimage(p, t, m), 8) == t.len(),
        le64_at(commitment_preimage(p, t, m), 16) == m.len(),
        commitment_preimage(p, t, m).subrange(24, 24 + p.len() as int) == p,
        commitment_preimage(p, t, m).subrange(
            24 + p.len() as int,
            24 + p.len() as int + t.len() as int,
        ) == t,
        commitment_preimage(p, t, m).subrange(
            24 + p.len() as int + t.len() as int,
            24 + p.len() as int + t.len() as int + m.len() as int,
        ) == m,
{
    crate::uint_bytes::lemma_le64_round_trip(p.len() as int);
    crate::uint_bytes::lemma_le64_round_trip(t.len() as int);
    crate::uint_bytes::lemma_le64_round_trip(m.len() as int);
    lemma_framed_parts(
        le64(p.len() as int),
        le64(t.len() as int),
        le64(m.len() as int),
        p,
        t,
        m,
    );
}

/// No two blocks are hashed from the same bytes: what is hashed determines
/// the namespace payloads, the table and the metadata. So two commitments
/// can only agree for different blocks if SHA-256 gives one digest for two
/// different inputs.
pub proof fn lemma_preimage_injective(
    p1: Seq<u8>,
    t1: Seq<u8>,
    m1: Seq<u8>,
    p2: Seq<u8>,
    t2: Seq<u8>,
    m2: Seq<u8>,
)
    requires
        p1.len() <= u64::MAX,
        t1.len() <= u64::MAX,
        m1.len() <= u64::MAX,
        p2.len() <= u64::MAX,
        t2.len() <= u64::MAX,
        m2.len() <= u64::MAX,
        commitment_preimage(p1, t1, m1) == commitment_preimage(p2, t2, m2),
    ensures
        p1 == p2,
        t1 == t2,
        m1 == m2,
{
    lemma_preimage_parts(p1, t1, m1);
    lemma_preimage_parts(p2, t2, m2);
}

} // verus!
