//! The block that a sequence of transactions is packed into, as mathematics.
//!
//! Transactions are grouped by namespace. Groups stand in the order in which
//! their namespaces first appear; inside a group the transactions keep their
//! order. Each group becomes one namespace payload, and the namespace table
//! records where each payload ends.

use vstd::prelude::*;
use crate::transaction::TxView;
use crate::uint_bytes::{le32, le64, NS_ENTRY_BYTE_LEN, W};

verus! {

/// The transactions of one namespace, in order.
pub ghost struct Group {
    pub namespace: u64,
    pub payloads: Seq<Seq<u8>>,
}

/// A block as it is handed over: the namespace payloads and the table.
pub ghost struct BlockView {
    pub ns_payloads: Seq<u8>,
    pub ns_table: Seq<u8>,
}

/// Position of the first group of namespace `ns`, or `gs.len()` if there is none.
pub open spec fn group_index(gs: Seq<Group>, ns: u64) -> int
    decreases gs.len(),
{
    if gs.len() == 0 {
        0
    } else {
        let before = group_index(gs.drop_last(), ns);
        if before < gs.len() - 1 {
            before
        } else if gs.last().namespace == ns {
            gs.len() - 1
        } else {
            gs.len() as int
        }
    }
}

/// The groups after one more transaction: it joins the group of its
/// namespace, or opens a new group behind all others.
pub open spec fn add_tx(gs: Seq<Group>, tx: TxView) -> Seq<Group> {
    let at = group_index(gs, tx.namespace);
    if at < gs.len() {
        gs.update(
            at,
            Group { namespace: gs[at].namespace, payloads: gs[at].payloads.push(tx.payload) },
        )
    } else {
        gs.push(Group { namespace: tx.namespace, payloads: seq![tx.payload] })
    }
}

/// The groups of a sequence of transactions.
pub open spec fn groups(txs: Seq<TxView>) -> Seq<Group>
    decreases txs.len(),
{
    if txs.len() == 0 {
        Seq::empty()
    } else {
        add_tx(groups(txs.drop_last()), txs.last())
    }
}

/// No two groups share a namespace.
pub open spec fn distinct_namespaces(gs: Seq<Group>) -> bool {
    forall|i: int, j: int|
        0 <= i < j < gs.len() ==> (#[trigger] gs[i]).namespace != (#[trigger] gs[j]).namespace
}

/// The transactions of one group, each with its namespace.
pub open spec fn group_txs(g: Group) -> Seq<TxView> {
    Seq::new(g.payloads.len(), |i: int| TxView { namespace: g.namespace, payload: g.payloads[i] })
}

/// The transactions of all groups, group after group.
pub open spec fn grouped_txs(gs: Seq<Group>) -> Seq<TxView>
    decreases gs.len(),
{
    if gs.len() == 0 {
        Seq::empty()
    } else {
        grouped_txs(gs.drop_last()) + group_txs(gs.last())
    }
}

/// Number of bytes of all payloads together.
pub open spec fn total_len(ps: Seq<Seq<u8>>) -> int
    decreases ps.len(),
{
    if ps.len() == 0 {
        0
    } else {
        total_len(ps.drop_last()) + ps.last().len()
    }
}

/// The payloads one after the other.
pub open spec fn tx_bodies(ps: Seq<Seq<u8>>) -> Seq<u8>
    decreases ps.len(),
{
    if ps.len() == 0 {
        Seq::empty()
    } else {
        tx_bodies(ps.drop_last()) + ps.last()
    }
}

/// The offsets at which the payloads end, each counted from the first byte
/// of the first payload.
pub open spec fn tx_table_entries(ps: Seq<Seq<u8>>) -> Seq<u8>
    decreases ps.len(),
{
    if ps.len() == 0 {
        Seq::empty()
    } else {
        tx_table_entries(ps.drop_last()) + le32(total_len(ps))
    }
}

/// One namespace payload: the number of transactions, the offsets at which
/// they end, and their bytes.
pub open spec fn ns_payload_encoding(ps: Seq<Seq<u8>>) -> Seq<u8> {
    le32(ps.len() as int) + tx_table_entries(ps) + tx_bodies(ps)
}

/// Number of bytes of `ns_payload_encoding(ps)`: `W` for the count, `W` for
/// each offset, and the payloads.
pub open spec fn ns_payload_len(ps: Seq<Seq<u8>>) -> int {
    4 + 4 * ps.len() + total_len(ps)
}

/// The namespace payloads of all groups, one after the other.
pub open spec fn ns_payloads_encoding(gs: Seq<Group>) -> Seq<u8>
    decreases gs.len(),
{
    if gs.len() == 0 {
        Seq::empty()
    } else {
        ns_payloads_encoding(gs.drop_last()) + ns_payload_encoding(gs.last().payloads)
    }
}

/// Number of bytes of `ns_payloads_encoding(gs)`.
pub open spec fn ns_payloads_len(gs: Seq<Group>) -> int
    decreases gs.len(),
{
    if gs.len() == 0 {
        0
    } else {
        ns_payloads_len(gs.drop_last()) + ns_payload_len(gs.last().payloads)
    }
}

/// One entry of the namespace table: a namespace and the offset at which
/// its payload ends among the namespace payloads.
pub ghost struct NsEntry {
    pub namespace: u64,
    pub end: int,
}

/// The bytes of the entries of a namespace table.
pub open spec fn ns_entries_bytes(es: Seq<NsEntry>) -> Seq<u8>
    decreases es.len(),
{
    if es.len() == 0 {
        Seq::empty()
    } else {
        ns_entries_bytes(es.drop_last()) + le64(es.last().namespace as int) + le32(es.last().end)
    }
}

/// A namespace table: the number of entries, then the entries.
pub open spec fn ns_table_bytes(es: Seq<NsEntry>) -> Seq<u8> {
    le32(es.len() as int) + ns_entries_bytes(es)
}

/// The table entries of the groups: each payload ends where the payloads up
/// to and including it have been written.
pub open spec fn group_entries(gs: Seq<Group>) -> Seq<NsEntry>
    decreases gs.len(),
{
    if gs.len() == 0 {
        Seq::empty()
    } else {
        group_entries(gs.drop_last()).push(
            NsEntry { namespace: gs.last().namespace, end: ns_payloads_len(gs) },
        )
    }
}

/// The namespace table of the groups.
pub open spec fn ns_table_encoding(gs: Seq<Group>) -> Seq<u8> {
    ns_table_bytes(group_entries(gs))
}

/// Number of bytes of `ns_table_encoding(gs)`: `W` for the count and
/// `NS_ENTRY_BYTE_LEN` for each entry.
pub open spec fn ns_table_len(gs: Seq<Group>) -> int {
    4 + 12 * (gs.len() as int)
}

/// Number of bytes of the whole block: table and namespace payloads.
pub open spec fn block_byte_len(gs: Seq<Group>) -> int {
    ns_table_len(gs) + ns_payloads_len(gs)
}

/// The block that holds exactly the groups `gs`.
pub open spec fn block_encoding(gs: Seq<Group>) -> BlockView {
    BlockView { ns_payloads: ns_payloads_encoding(gs), ns_table: ns_table_encoding(gs) }
}

/// What one more transaction adds to the size of the block: its bytes and
/// its offset, and for the first transaction of a namespace a table entry and
/// an empty namespace payload.
pub open spec fn tx_cost(gs: Seq<Group>, tx: TxView) -> int {
    if group_index(gs, tx.namespace) < gs.len() {
        tx.payload.len() + W
    } else {
        tx.payload.len() + W + NS_ENTRY_BYTE_LEN + W
    }
}

/// The largest block that can be written: every offset must fit in `W` bytes.
pub open spec fn max_encodable_len() -> int {
    u32::MAX as int
}

/// The budget that a block is held to: the configured maximum, as far as a
/// block of that size can be written at all.
pub open spec fn byte_budget(max_block_size: int) -> int {
    if max_block_size > max_encodable_len() {
        max_encodable_len()
    } else {
        max_block_size
    }
}

/// How many transactions at the front of `txs` are packed under `budget`:
/// packing stops at the first transaction with which the block would exceed
/// the budget, and everything behind it is dropped too.
pub open spec fn accepted_count(txs: Seq<TxView>, budget: int) -> nat
    decreases txs.len(),
{
    if txs.len() == 0 {
        0
    } else {
        let before = accepted_count(txs.drop_last(), budget);
        if before == txs.len() - 1 && block_byte_len(groups(txs)) <= budget {
            txs.len()
        } else {
            before
        }
    }
}

/// The groups that are packed from `txs` under a maximum block size.
pub open spec fn packed_groups(txs: Seq<TxView>, max_block_size: int) -> Seq<Group> {
    groups(txs.take(accepted_count(txs, byte_budget(max_block_size)) as int))
}

/// The block that is built from `txs` under a maximum block size.
pub open spec fn built_block(txs: Seq<TxView>, max_block_size: int) -> BlockView {
    block_encoding(packed_groups(txs, max_block_size))
}

/// What `group_index` returns is the first group of the namespace and no
/// other position.
pub proof fn lemma_group_index(gs: Seq<Group>, ns: u64)
    ensures
        0 <= group_index(gs, ns) <= gs.len(),
        group_index(gs, ns) < gs.len() ==> gs[group_index(gs, ns)].namespace == ns,
        forall|j: int| 0 <= j < group_index(gs, ns) ==> (#[trigger] gs[j]).namespace != ns,
    decreases gs.len(),
{
    if gs.len() > 0 {
        lemma_group_index(gs.drop_last(), ns);
        assert(forall|j: int| 0 <= j < gs.len() - 1 ==> gs.drop_last()[j] == gs[j]);
    }
}

/// A position before which no group has the namespace, and at which one has
/// it if the position is a group at all, is what `group_index` returns.
pub proof fn lemma_group_index_is(gs: Seq<Group>, ns: u64, at: int)
    requires
        0 <= at <= gs.len(),
        forall|j: int| 0 <= j < at ==> (#[trigger] gs[j]).namespace != ns,
        at < gs.len() ==> gs[at].namespace == ns,
    ensures
        group_index(gs, ns) == at,
{
    lemma_group_index(gs, ns);
}

/// Growing the payloads of one group grows the namespace payloads by as
/// much.
pub proof fn lemma_ns_payloads_len_update(gs: Seq<Group>, at: int, g: Group)
    requires
        0 <= at < gs.len(),
    ensures
        ns_payloads_len(gs.update(at, g)) == ns_payloads_len(gs) - ns_payload_len(gs[at].payloads)
            + ns_payload_len(g.payloads),
    decreases gs.len(),
{
    let updated = gs.update(at, g);
    if at == gs.len() - 1 {
        assert(updated.drop_last() =~= gs.drop_last());
    } else {
        assert(updated.drop_last() =~= gs.drop_last().update(at, g));
        lemma_ns_payloads_len_update(gs.drop_last(), at, g);
    }
}

/// One more transaction grows the block by exactly its cost.
pub proof fn lemma_add_tx_cost(gs: Seq<Group>, tx: TxView)
    ensures
        add_tx(gs, tx).len() == if group_index(gs, tx.namespace) < gs.len() {
            gs.len()
        } else {
            gs.len() + 1
        },
        block_byte_len(add_tx(gs, tx)) == block_byte_len(gs) + tx_cost(gs, tx),
{
    lemma_group_index(gs, tx.namespace);
    let at = group_index(gs, tx.namespace);
    if at < gs.len() {
        let g = Group { namespace: gs[at].namespace, payloads: gs[at].payloads.push(tx.payload) };
        lemma_ns_payloads_len_update(gs, at, g);
        assert(g.payloads.drop_last() =~= gs[at].payloads);
    } else {
        let g = Group { namespace: tx.namespace, payloads: seq![tx.payload] };
        assert(gs.push(g).drop_last() =~= gs);
        assert(g.payloads.drop_last() =~= Seq::<Seq<u8>>::empty());
        assert(total_len(g.payloads.drop_last()) == 0);
    }
}

/// No group of a block is larger than the block.
pub proof fn lemma_group_within_block(gs: Seq<Group>, at: int)
    requires
        0 <= at < gs.len(),
    ensures
        ns_payload_len(gs[at].payloads) <= ns_payloads_len(gs),
        ns_payloads_len(gs) <= block_byte_len(gs),
        0 <= total_len(gs[at].payloads) <= ns_payload_len(gs[at].payloads),
        gs[at].payloads.len() <= ns_payload_len(gs[at].payloads),
        gs.len() <= block_byte_len(gs),
    decreases gs.len(),
{
    lemma_block_len(gs);
    lemma_block_len(gs.drop_last());
    lemma_ns_payload_len(gs.last().payloads);
    if at < gs.len() - 1 {
        lemma_group_within_block(gs.drop_last(), at);
    }
}

/// The namespace payloads of the first groups are no longer than those of
/// all groups.
pub proof fn lemma_ns_payloads_len_monotone(gs: Seq<Group>, k: int)
    requires
        0 <= k <= gs.len(),
    ensures
        0 <= ns_payloads_len(gs.take(k)) <= ns_payloads_len(gs),
    decreases gs.len(),
{
    lemma_block_len(gs.take(k));
    if k == gs.len() {
        assert(gs.take(k) =~= gs);
    } else {
        assert(gs.drop_last().take(k) =~= gs.take(k));
        lemma_ns_payloads_len_monotone(gs.drop_last(), k);
        lemma_ns_payload_len(gs.last().payloads);
    }
}

/// Once a transaction has been refused, none behind it is packed.
pub proof fn lemma_accepted_count_stops(txs: Seq<TxView>, budget: int, n: int)
    requires
        0 <= n <= txs.len(),
        accepted_count(txs.take(n), budget) < n,
    ensures
        accepted_count(txs, budget) == accepted_count(txs.take(n), budget),
    decreases txs.len(),
{
    if n == txs.len() {
        assert(txs.take(n) =~= txs);
    } else {
        assert(txs.drop_last().take(n) =~= txs.take(n));
        lemma_accepted_count_stops(txs.drop_last(), budget, n);
    }
}

/// The pieces of a namespace payload have the lengths that `ns_payload_len`
/// adds up.
pub proof fn lemma_ns_payload_len(ps: Seq<Seq<u8>>)
    ensures
        0 <= total_len(ps),
        tx_bodies(ps).len() == total_len(ps),
        tx_table_entries(ps).len() == 4 * ps.len(),
        ns_payload_encoding(ps).len() == ns_payload_len(ps),
    decreases ps.len(),
{
    if ps.len() > 0 {
        lemma_ns_payload_len(ps.drop_last());
    }
}

/// The namespace payloads and the table have the lengths that
/// `ns_payloads_len` and `ns_table_len` add up.
pub proof fn lemma_block_len(gs: Seq<Group>)
    ensures
        0 <= ns_payloads_len(gs),
        ns_payloads_encoding(gs).len() == ns_payloads_len(gs),
        group_entries(gs).len() == gs.len(),
        ns_entries_bytes(group_entries(gs)).len() == 12 * gs.len(),
        ns_table_encoding(gs).len() == ns_table_len(gs),
    decreases gs.len(),
{
    if gs.len() > 0 {
        lemma_block_len(gs.drop_last());
        lemma_ns_payload_len(gs.last().payloads);
        lemma_ns_entries_len(group_entries(gs));
    }
}

/// Each entry of a namespace table takes `NS_ENTRY_BYTE_LEN` bytes.
pub proof fn lemma_ns_entries_len(es: Seq<NsEntry>)
    ensures
        ns_entries_bytes(es).len() == 12 * es.len(),
        ns_table_bytes(es).len() == 4 + 12 * es.len(),
    decreases es.len(),
{
    if es.len() > 0 {
        lemma_ns_entries_len(es.drop_last());
    }
}

} // verus!
