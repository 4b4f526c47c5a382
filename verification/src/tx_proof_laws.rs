//! What holds of the proofs that are made for the transactions of a block.
//!
//! Whoever checks a proof reads the place of the namespace from the table
//! and the place of the transaction from what the proof tells of the
//! transaction table. For a block that was built here they arrive at the
//! ranges that were opened when the proof was made, and what the proof
//! claims to stand there does stand there.

use vstd::prelude::*;
use crate::decoding::{
    lemma_tx_within_block, ns_block_end, ns_block_start, ns_bytes, ns_id, tx_at, valid_index,
    IndexView,
};
use crate::encoding::{
    add_tx, block_byte_len, block_encoding, built_block, byte_budget, distinct_namespaces, groups,
    lemma_group_index, lemma_group_within_block, packed_groups, total_len, BlockView, Group,
};
use crate::ns_payload::{
    declared_num_txs, lemma_table_fits, num_txs, tx_bodies_len, tx_offset, tx_table_len,
};
use crate::ns_table::{
    first_ns_index, lemma_first_ns_index_from, lemma_ns_range_in_bounds, ns_id_at,
};
use crate::round_trip::{
    lemma_accepted_fits, lemma_block_namespace, lemma_ns_payload_layout, lemma_total_len_take,
};
use crate::transaction::TxView;
use crate::tx_proof::{
    can_claim, claims_of, entries_window_bytes, entries_window_end, entries_window_start,
    windows_at, Claim, TxProof, TxProofClaims, TxProofWindows,
};
use crate::uint_bytes::{le32, lemma_le32_at_bounds, lemma_le32_of_le32_at, lemma_le64_at_bounds};

verus! {

/// Does the block keep, at `index`, to the layout in which blocks are
/// built? The namespace has no entry in the table before this one, its
/// payload has room for the transaction table that it declares, and the
/// offsets around the transaction are in order and inside the payload.
pub open spec fn well_formed_at(block: BlockView, index: IndexView) -> bool {
    let ns = ns_bytes(block, index.ns);
    &&& first_ns_index(block.ns_table, ns_id(block, index.ns)) == index.ns
    &&& declared_num_txs(ns) == num_txs(ns)
    &&& tx_offset(ns, index.tx) <= tx_offset(ns, index.tx + 1) <= tx_bodies_len(ns)
}

/// Is `proof` made from `windows`, with an opening of the bytes of the
/// transaction exactly if there are any?
pub open spec fn made_from<P>(proof: TxProof<P>, windows: TxProofWindows) -> bool {
    &&& proof.tx_index == windows.tx_index
    &&& proof.payload_num_txs == windows.payload_num_txs
    &&& proof.payload_tx_table_entries == windows.payload_tx_table_entries
    &&& proof.payload_proof_tx is Some <==> windows.tx_payload_range.start
        < windows.tx_payload_range.end
}

/// Is the claim true of the bytes `ns_payloads`?
pub open spec fn claim_holds(claim: Claim, ns_payloads: Seq<u8>) -> bool {
    &&& claim.range.start <= claim.range.end <= ns_payloads.len()
    &&& ns_payloads.subrange(claim.range.start as int, claim.range.end as int) == claim.bytes@
}

/// Are the claims about the ranges of `windows`, and all true of the bytes
/// `ns_payloads`?
pub open spec fn claims_hold(
    claims: TxProofClaims,
    windows: TxProofWindows,
    ns_payloads: Seq<u8>,
) -> bool {
    &&& claims.num_txs.range == windows.num_txs_range
    &&& claim_holds(claims.num_txs, ns_payloads)
    &&& claims.tx_table_entries.range == windows.tx_table_entries_range
    &&& claim_holds(claims.tx_table_entries, ns_payloads)
    &&& claims.tx_payload is Some ==> claims.tx_payload->0.range == windows.tx_payload_range
        && claim_holds(claims.tx_payload->0, ns_payloads)
}

/// No two groups of a sequence of transactions share a namespace.
pub proof fn lemma_groups_distinct(txs: Seq<TxView>)
    ensures
        distinct_namespaces(groups(txs)),
    decreases txs.len(),
{
    if txs.len() > 0 {
        let before = groups(txs.drop_last());
        lemma_groups_distinct(txs.drop_last());
        lemma_group_index(before, txs.last().namespace);
        let after = add_tx(before, txs.last());
        assert forall|i: int, j: int| 0 <= i < j < after.len() implies (
        #[trigger] after[i]).namespace != (#[trigger] after[j]).namespace by {
            if j < before.len() {
                assert(after[i].namespace == before[i].namespace);
                assert(after[j].namespace == before[j].namespace);
            } else {
                assert(after[i].namespace == before[i].namespace);
            }
        }
    }
}

/// A block that was written from groups of distinct namespaces keeps to the
/// layout at every address.
pub proof fn lemma_written_block_well_formed(gs: Seq<Group>, index: IndexView)
    requires
        block_byte_len(gs) <= u32::MAX,
        distinct_namespaces(gs),
        valid_index(block_encoding(gs), index),
    ensures
        well_formed_at(block_encoding(gs), index),
{
    let block = block_encoding(gs);
    let table = block.ns_table;
    if gs.len() == 0 {
        crate::round_trip::lemma_ns_table_round_trip(crate::encoding::group_entries(gs));
    } else {
        lemma_block_namespace(gs, 0);
    }
    lemma_block_namespace(gs, index.ns);
    lemma_group_within_block(gs, index.ns);
    let ps = gs[index.ns].payloads;
    lemma_ns_payload_layout(ps);
    lemma_total_len_take(ps, index.tx);
    lemma_total_len_take(ps, index.tx + 1);
    assert(tx_offset(ns_bytes(block, index.ns), index.tx) == total_len(ps.take(index.tx)));
    assert(tx_offset(ns_bytes(block, index.ns), index.tx + 1) == total_len(
        ps.take(index.tx + 1),
    ));

    let id = ns_id(block, index.ns);
    let found = first_ns_index(table, id);
    lemma_first_ns_index_from(table, id, 0);
    assert(ns_id_at(table, index.ns) == id);
    assert(found <= index.ns);
    lemma_block_namespace(gs, found);
    assert(gs[found].namespace == gs[index.ns].namespace);
}

/// Where a block has a transaction, the namespace of the transaction has
/// room for its transaction table up to the offset at which the transaction
/// ends, and the offsets around the transaction are numbers of `W` bytes.
proof fn lemma_table_reaches(block: BlockView, index: IndexView)
    requires
        valid_index(block, index),
    ensures
        0 <= ns_block_start(block, index.ns) <= ns_block_end(block, index.ns)
            <= block.ns_payloads.len(),
        ns_bytes(block, index.ns).len() == ns_block_end(block, index.ns) - ns_block_start(
            block,
            index.ns,
        ),
        4 * (index.tx + 2) <= tx_table_len(ns_bytes(block, index.ns)) <= ns_bytes(
            block,
            index.ns,
        ).len(),
        tx_table_len(ns_bytes(block, index.ns)) + tx_bodies_len(ns_bytes(block, index.ns))
            == ns_bytes(block, index.ns).len(),
        0 <= declared_num_txs(ns_bytes(block, index.ns)) <= u32::MAX,
        0 <= tx_offset(ns_bytes(block, index.ns), index.tx) <= u32::MAX,
        0 <= tx_offset(ns_bytes(block, index.ns), index.tx + 1) <= u32::MAX,
        index.tx == 0 ==> tx_offset(ns_bytes(block, index.ns), index.tx) == 0,
        0 <= ns_id_at(block.ns_table, index.ns) <= u64::MAX,
{
    let ns = ns_bytes(block, index.ns);
    lemma_ns_range_in_bounds(block.ns_table, index.ns, block.ns_payloads.len() as int);
    lemma_le32_at_bounds(ns, 0);
    lemma_table_fits(declared_num_txs(ns), ns.len() as int);
    lemma_le64_at_bounds(block.ns_table, crate::ns_table::ns_entry_pos(index.ns));
    lemma_le32_at_bounds(ns, 4 * index.tx);
    lemma_le32_at_bounds(ns, 4 * (index.tx + 1));
}

/// The bytes of a part of a part are bytes of the whole.
proof fn lemma_subrange_of_subrange(whole: Seq<u8>, base: int, end: int, from: int, to: int)
    requires
        0 <= base <= end <= whole.len(),
        0 <= from <= to <= end - base,
    ensures
        whole.subrange(base, end).subrange(from, to) == whole.subrange(base + from, base + to),
{
    assert(whole.subrange(base, end).subrange(from, to) =~= whole.subrange(base + from, base + to));
}

/// The number of transactions that a namespace declares stands in the
/// first `W` bytes of the namespace.
proof fn lemma_count_stands(block: BlockView, index: IndexView)
    requires
        valid_index(block, index),
    ensures
        le32(declared_num_txs(ns_bytes(block, index.ns))) == block.ns_payloads.subrange(
            ns_block_start(block, index.ns),
            ns_block_start(block, index.ns) + 4,
        ),
{
    let ns = ns_bytes(block, index.ns);
    lemma_table_reaches(block, index);
    lemma_le32_of_le32_at(ns, 0);
    lemma_subrange_of_subrange(
        block.ns_payloads,
        ns_block_start(block, index.ns),
        ns_block_end(block, index.ns),
        0,
        4,
    );
}

/// The offsets around a transaction stand in the transaction table of its
/// namespace, at the place of the transaction.
proof fn lemma_offsets_stand(block: BlockView, index: IndexView)
    requires
        valid_index(block, index),
    ensures
        entries_window_bytes(
            index.tx,
            tx_offset(ns_bytes(block, index.ns), index.tx),
            tx_offset(ns_bytes(block, index.ns), index.tx + 1),
        ) == block.ns_payloads.subrange(
            ns_block_start(block, index.ns) + entries_window_start(index.tx),
            ns_block_start(block, index.ns) + entries_window_end(index.tx),
        ),
{
    let ns = ns_bytes(block, index.ns);
    let base = ns_block_start(block, index.ns);
    let end = ns_block_end(block, index.ns);
    lemma_table_reaches(block, index);
    lemma_le32_of_le32_at(ns, 4 * (index.tx + 1));
    if index.tx > 0 {
        lemma_le32_of_le32_at(ns, 4 * index.tx);
        let both = ns.subrange(4 * index.tx, 4 * (index.tx + 2));
        assert(ns.subrange(4 * index.tx, 4 * index.tx + 4) + ns.subrange(
            4 * (index.tx + 1),
            4 * (index.tx + 1) + 4,
        ) =~= both);
        lemma_subrange_of_subrange(
            block.ns_payloads,
            base,
            end,
            4 * index.tx,
            4 * (index.tx + 2),
        );
    } else {
        lemma_subrange_of_subrange(block.ns_payloads, base, end, 4, 8);
    }
}

/// At an address where a block keeps to the layout, a proof that is made
/// from the windows of the transaction can be a proof for it.
pub proof fn lemma_can_claim<P>(
    block: BlockView,
    index: IndexView,
    windows: TxProofWindows,
    proof: TxProof<P>,
)
    requires
        block.ns_payloads.len() <= usize::MAX,
        valid_index(block, index),
        well_formed_at(block, index),
        windows_at(windows, block, index),
        made_from(proof, windows),
    ensures
        can_claim(proof, block.ns_table, tx_at(block, index), block.ns_payloads.len() as int),
{
    lemma_table_reaches(block, index);
    lemma_tx_within_block(block, index);
}

/// At an address where a block keeps to the layout, whoever checks a proof
/// that is made from the windows of the transaction arrives at claims about
/// the ranges that were opened, all of them true of the namespace payloads.
pub proof fn lemma_claims_hold<P>(
    block: BlockView,
    index: IndexView,
    windows: TxProofWindows,
    proof: TxProof<P>,
    claims: TxProofClaims,
)
    requires
        block.ns_payloads.len() <= usize::MAX,
        valid_index(block, index),
        well_formed_at(block, index),
        windows_at(windows, block, index),
        made_from(proof, windows),
        claims_of(
            claims,
            proof,
            block.ns_table,
            tx_at(block, index),
            block.ns_payloads.len() as int,
        ),
    ensures
        claims_hold(claims, windows, block.ns_payloads),
{
    lemma_table_reaches(block, index);
    lemma_count_stands(block, index);
    lemma_offsets_stand(block, index);
    lemma_tx_within_block(block, index);
}

/// For every transaction of a block that is built from transactions, a
/// proof that is made from the windows of the transaction can be a proof
/// for it, and whoever checks it arrives at claims about the ranges that
/// were opened, all of them true of the namespace payloads of the block.
pub proof fn lemma_built_block_claims_hold<P>(
    txs: Seq<TxView>,
    max_block_size: int,
    index: IndexView,
    windows: TxProofWindows,
    proof: TxProof<P>,
    claims: TxProofClaims,
)
    requires
        valid_index(built_block(txs, max_block_size), index),
        windows_at(windows, built_block(txs, max_block_size), index),
        made_from(proof, windows),
        claims_of(
            claims,
            proof,
            built_block(txs, max_block_size).ns_table,
            tx_at(built_block(txs, max_block_size), index),
            built_block(txs, max_block_size).ns_payloads.len() as int,
        ),
    ensures
        can_claim(
            proof,
            built_block(txs, max_block_size).ns_table,
            tx_at(built_block(txs, max_block_size), index),
            built_block(txs, max_block_size).ns_payloads.len() as int,
        ),
        claims_hold(claims, windows, built_block(txs, max_block_size).ns_payloads),
{
    lemma_built_block_well_formed(txs, max_block_size, index);
    lemma_can_claim(built_block(txs, max_block_size), index, windows, proof);
    lemma_claims_hold(built_block(txs, max_block_size), index, windows, proof, claims);
}

/// A block that is built from transactions keeps to the layout at every
/// address, and is no longer than an offset can tell.
pub proof fn lemma_built_block_well_formed(txs: Seq<TxView>, max_block_size: int, index: IndexView)
    requires
        valid_index(built_block(txs, max_block_size), index),
    ensures
        well_formed_at(built_block(txs, max_block_size), index),
        built_block(txs, max_block_size).ns_payloads.len() <= u32::MAX,
{
    let budget = byte_budget(max_block_size);
    let gs = packed_groups(txs, max_block_size);
    lemma_accepted_fits(txs, budget);
    if crate::encoding::accepted_count(txs, budget) == 0 {
        assert(txs.take(0) =~= Seq::<TxView>::empty());
    }
    lemma_groups_distinct(txs.take(crate::encoding::accepted_count(txs, budget) as int));
    crate::encoding::lemma_block_len(gs);
    lemma_written_block_well_formed(gs, index);
}

} // verus!
