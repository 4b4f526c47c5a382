//! What a block holds, as mathematics: every pair of byte strings is read as
//! namespaces and transactions.

use vstd::prelude::*;
use crate::encoding::BlockView;
use crate::ns_payload::{
    lemma_tx_range_in_bounds, ns_payload_txs, num_txs, tx_end, tx_payload, tx_start,
};
use crate::ns_table::{lemma_ns_range_in_bounds, ns_end, ns_id_at, ns_start, num_nss};
use crate::transaction::TxView;

verus! {

/// The address of a transaction in a block: the position of its namespace in
/// the namespace table and its own position in that namespace.
pub ghost struct IndexView {
    pub ns: int,
    pub tx: int,
}

/// Where the payload of namespace `ns` starts among the namespace payloads.
pub open spec fn ns_block_start(block: BlockView, ns: int) -> int {
    ns_start(block.ns_table, ns, block.ns_payloads.len() as int)
}

/// Where the payload of namespace `ns` ends among the namespace payloads.
pub open spec fn ns_block_end(block: BlockView, ns: int) -> int {
    ns_end(block.ns_table, ns, block.ns_payloads.len() as int)
}

/// The payload of namespace `ns`.
pub open spec fn ns_bytes(block: BlockView, ns: int) -> Seq<u8> {
    block.ns_payloads.subrange(ns_block_start(block, ns), ns_block_end(block, ns))
}

/// The namespace id of namespace `ns`.
pub open spec fn ns_id(block: BlockView, ns: int) -> u64 {
    ns_id_at(block.ns_table, ns) as u64
}

/// Is there a transaction at `index`?
pub open spec fn valid_index(block: BlockView, index: IndexView) -> bool {
    &&& 0 <= index.ns < num_nss(block.ns_table)
    &&& 0 <= index.tx < num_txs(ns_bytes(block, index.ns))
}

/// Where the bytes of the transaction at `index` start among the namespace
/// payloads.
pub open spec fn tx_block_start(block: BlockView, index: IndexView) -> int {
    ns_block_start(block, index.ns) + tx_start(ns_bytes(block, index.ns), index.tx)
}

/// Where the bytes of the transaction at `index` end among the namespace
/// payloads.
pub open spec fn tx_block_end(block: BlockView, index: IndexView) -> int {
    ns_block_start(block, index.ns) + tx_end(ns_bytes(block, index.ns), index.tx)
}

/// The transaction at `index`.
pub open spec fn tx_at(block: BlockView, index: IndexView) -> TxView {
    TxView {
        namespace: ns_id(block, index.ns),
        payload: tx_payload(ns_bytes(block, index.ns), index.tx),
    }
}

/// The transactions of namespace `ns`, in order.
pub open spec fn ns_txs(block: BlockView, ns: int) -> Seq<TxView> {
    ns_payload_txs(ns_bytes(block, ns), ns_id(block, ns))
}

/// The addresses of the transactions of namespace `ns`, in order.
pub open spec fn ns_indices(block: BlockView, ns: int) -> Seq<IndexView> {
    Seq::new(num_txs(ns_bytes(block, ns)) as nat, |tx: int| IndexView { ns: ns, tx: tx })
}

/// The transactions of the first `count` namespaces, namespace after
/// namespace.
pub open spec fn txs_before(block: BlockView, count: int) -> Seq<TxView>
    decreases count,
{
    if count <= 0 {
        Seq::empty()
    } else {
        txs_before(block, count - 1) + ns_txs(block, count - 1)
    }
}

/// The addresses of the transactions of the first `count` namespaces,
/// namespace after namespace.
pub open spec fn indices_before(block: BlockView, count: int) -> Seq<IndexView>
    decreases count,
{
    if count <= 0 {
        Seq::empty()
    } else {
        indices_before(block, count - 1) + ns_indices(block, count - 1)
    }
}

/// All transactions of the block, in the order of their addresses.
pub open spec fn block_txs(block: BlockView) -> Seq<TxView> {
    txs_before(block, num_nss(block.ns_table))
}

/// The addresses of all transactions of the block, in order.
pub open spec fn block_indices(block: BlockView) -> Seq<IndexView> {
    indices_before(block, num_nss(block.ns_table))
}

/// Whatever the bytes of the block and of its table, the bytes of every
/// transaction are bytes of the namespace payloads: they lie at a range
/// inside them.
pub proof fn lemma_tx_within_block(block: BlockView, index: IndexView)
    requires
        valid_index(block, index),
    ensures
        0 <= ns_block_start(block, index.ns) <= tx_block_start(block, index) <= tx_block_end(
            block,
            index,
        ) <= ns_block_end(block, index.ns) <= block.ns_payloads.len(),
        tx_at(block, index).payload == block.ns_payloads.subrange(
            tx_block_start(block, index),
            tx_block_end(block, index),
        ),
{
    lemma_ns_range_in_bounds(block.ns_table, index.ns, block.ns_payloads.len() as int);
    lemma_tx_range_in_bounds(ns_bytes(block, index.ns), index.tx);
    assert(tx_at(block, index).payload =~= block.ns_payloads.subrange(
        tx_block_start(block, index),
        tx_block_end(block, index),
    ));
}

/// There are as many addresses as transactions, and each transaction is the
/// one at its address.
pub proof fn lemma_txs_at_indices(block: BlockView, count: int)
    ensures
        txs_before(block, count).len() == indices_before(block, count).len(),
        forall|k: int|
            0 <= k < indices_before(block, count).len() ==> {
                &&& 0 <= (#[trigger] indices_before(block, count)[k]).ns < count
                &&& 0 <= indices_before(block, count)[k].tx < num_txs(
                    ns_bytes(block, indices_before(block, count)[k].ns),
                )
                &&& txs_before(block, count)[k] == tx_at(block, indices_before(block, count)[k])
            },
    decreases count,
{
    if count > 0 {
        lemma_txs_at_indices(block, count - 1);
    }
}

/// Whatever the bytes of the block and of its table: the block has finitely
/// many transactions, each stands at an address of the block, and the bytes
/// of each are bytes of the namespace payloads, at a range inside them.
pub proof fn lemma_every_tx_within_block(block: BlockView, k: int)
    requires
        0 <= k < block_txs(block).len(),
    ensures
        block_indices(block).len() == block_txs(block).len(),
        valid_index(block, block_indices(block)[k]),
        block_txs(block)[k] == tx_at(block, block_indices(block)[k]),
        0 <= tx_block_start(block, block_indices(block)[k]) <= tx_block_end(
            block,
            block_indices(block)[k],
        ) <= block.ns_payloads.len(),
        block_txs(block)[k].payload == block.ns_payloads.subrange(
            tx_block_start(block, block_indices(block)[k]),
            tx_block_end(block, block_indices(block)[k]),
        ),
{
    lemma_txs_at_indices(block, num_nss(block.ns_table));
    lemma_tx_within_block(block, block_indices(block)[k]);
}

} // verus!
