//! Reading back what was written: a block that is built from transactions
//! holds those transactions, grouped by namespace.

use vstd::prelude::*;
use crate::decoding::{block_txs, ns_block_end, ns_block_start, ns_bytes, ns_txs, txs_before};
use crate::encoding::{
    accepted_count, block_byte_len, block_encoding, built_block, byte_budget, group_entries,
    group_txs, grouped_txs, groups, lemma_add_tx_cost, lemma_block_len, lemma_group_within_block,
    lemma_ns_entries_len, lemma_ns_payload_len, lemma_ns_payloads_len_monotone, ns_entries_bytes,
    ns_payload_encoding, ns_payload_len, ns_payloads_encoding, ns_payloads_len, ns_table_bytes,
    ns_table_encoding, packed_groups, total_len, tx_bodies, tx_table_entries, Group, NsEntry,
};
use crate::ns_payload::{
    declared_num_txs, ns_payload_txs, num_txs, tx_bodies_len, tx_offset, tx_payload,
};
use crate::ns_table::{ns_end, ns_id_at, ns_offset_at, ns_start, num_nss};
use crate::transaction::TxView;
use crate::uint_bytes::{
    le32, le32_at, le64, le64_at, lemma_le32_at_back, lemma_le32_at_embedded, lemma_le32_at_front,
    lemma_le64_at_embedded, lemma_le64_at_front,
};

verus! {

/// The first payloads are no longer than all, and each payload adds its own
/// length.
pub proof fn lemma_total_len_take(ps: Seq<Seq<u8>>, k: int)
    requires
        0 <= k <= ps.len(),
    ensures
        0 <= total_len(ps.take(k)) <= total_len(ps),
        k < ps.len() ==> total_len(ps.take(k + 1)) == total_len(ps.take(k)) + ps[k].len(),
    decreases ps.len(),
{
    lemma_ns_payload_len(ps.take(k));
    if k == ps.len() {
        assert(ps.take(k) =~= ps);
    } else {
        assert(ps.take(k + 1).drop_last() =~= ps.take(k));
        assert(ps.drop_last().take(k) =~= ps.take(k));
        lemma_total_len_take(ps.drop_last(), k);
    }
}

/// Entry number `k` of the transaction table is the offset at which the
/// first `k` payloads end.
pub proof fn lemma_tx_table_entry(ps: Seq<Seq<u8>>, k: int)
    requires
        1 <= k <= ps.len(),
        total_len(ps) <= u32::MAX,
    ensures
        le32_at(tx_table_entries(ps), 4 * (k - 1)) == total_len(ps.take(k)),
    decreases ps.len(),
{
    let front = tx_table_entries(ps.drop_last());
    lemma_ns_payload_len(ps.drop_last());
    lemma_ns_payload_len(ps);
    if k == ps.len() {
        assert(ps.take(k) =~= ps);
        lemma_le32_at_embedded(front, total_len(ps), Seq::empty());
        assert(tx_table_entries(ps) =~= front + le32(total_len(ps)) + Seq::empty());
    } else {
        lemma_total_len_take(ps, ps.len() - 1);
        assert(ps.take(ps.len() - 1) =~= ps.drop_last());
        lemma_tx_table_entry(ps.drop_last(), k);
        assert(ps.drop_last().take(k) =~= ps.take(k));
        lemma_le32_at_front(front, le32(total_len(ps)), 4 * (k - 1));
    }
}

/// Payload number `i` stands among the bodies between the offsets at which
/// the payloads before it and the payloads up to it end.
pub proof fn lemma_tx_body(ps: Seq<Seq<u8>>, i: int)
    requires
        0 <= i < ps.len(),
    ensures
        tx_bodies(ps).subrange(total_len(ps.take(i)), total_len(ps.take(i + 1))) == ps[i],
    decreases ps.len(),
{
    lemma_ns_payload_len(ps.drop_last());
    lemma_ns_payload_len(ps);
    lemma_total_len_take(ps, i);
    lemma_total_len_take(ps, i + 1);
    if i == ps.len() - 1 {
        assert(ps.take(i) =~= ps.drop_last());
        assert(ps.take(i + 1) =~= ps);
        assert(tx_bodies(ps).subrange(total_len(ps.take(i)), total_len(ps.take(i + 1)))
            =~= ps[i]);
    } else {
        lemma_tx_body(ps.drop_last(), i);
        assert(ps.drop_last().take(i) =~= ps.take(i));
        assert(ps.drop_last().take(i + 1) =~= ps.take(i + 1));
        lemma_total_len_take(ps.drop_last(), i + 1);
        assert(tx_bodies(ps).subrange(total_len(ps.take(i)), total_len(ps.take(i + 1)))
            =~= tx_bodies(ps.drop_last()).subrange(
            total_len(ps.take(i)),
            total_len(ps.take(i + 1)),
        ));
    }
}

/// How a namespace payload that was written from payloads is laid out: it
/// declares as many transactions as it has, behind its table stand the
/// bytes of the payloads and nothing else, and its offsets are the lengths
/// of the first payloads.
pub proof fn lemma_ns_payload_layout(ps: Seq<Seq<u8>>)
    requires
        ns_payload_len(ps) <= u32::MAX,
    ensures
        ns_payload_encoding(ps).len() == ns_payload_len(ps),
        declared_num_txs(ns_payload_encoding(ps)) == ps.len(),
        num_txs(ns_payload_encoding(ps)) == ps.len(),
        tx_bodies_len(ns_payload_encoding(ps)) == total_len(ps),
        forall|k: int|
            0 <= k <= ps.len() ==> #[trigger] tx_offset(ns_payload_encoding(ps), k) == total_len(
                ps.take(k),
            ),
{
    let n = ps.len() as int;
    let entries = tx_table_entries(ps);
    let bodies = tx_bodies(ps);
    let buf = ns_payload_encoding(ps);
    lemma_ns_payload_len(ps);
    assert(buf =~= Seq::<u8>::empty() + le32(n) + (entries + bodies));
    lemma_le32_at_embedded(Seq::empty(), n, entries + bodies);
    assert(num_txs(buf) == n);
    assert(ps.take(0) =~= Seq::<Seq<u8>>::empty());
    assert forall|k: int| 0 <= k <= n implies #[trigger] tx_offset(buf, k) == total_len(
        ps.take(k),
    ) by {
        if k > 0 {
            lemma_tx_table_entry(ps, k);
            assert(buf =~= le32(n) + (entries + bodies));
            lemma_le32_at_back(le32(n), entries + bodies, 4 * (k - 1));
            lemma_le32_at_front(entries, bodies, 4 * (k - 1));
        }
    }
}

/// A namespace payload that was written from payloads is read as exactly
/// those payloads.
pub proof fn lemma_ns_payload_round_trip(ps: Seq<Seq<u8>>)
    requires
        ns_payload_len(ps) <= u32::MAX,
    ensures
        num_txs(ns_payload_encoding(ps)) == ps.len(),
        forall|i: int|
            0 <= i < ps.len() ==> #[trigger] tx_payload(ns_payload_encoding(ps), i) == ps[i],
{
    let n = ps.len() as int;
    let bodies = tx_bodies(ps);
    let buf = ns_payload_encoding(ps);
    lemma_ns_payload_len(ps);
    lemma_ns_payload_layout(ps);
    assert forall|i: int| 0 <= i < n implies #[trigger] tx_payload(buf, i) == ps[i] by {
        lemma_total_len_take(ps, i);
        lemma_total_len_take(ps, i + 1);
        assert(tx_offset(buf, i) == total_len(ps.take(i)));
        assert(tx_offset(buf, i + 1) == total_len(ps.take(i + 1)));
        lemma_tx_body(ps, i);
        assert(tx_payload(buf, i) =~= bodies.subrange(
            total_len(ps.take(i)),
            total_len(ps.take(i + 1)),
        ));
    }
}

/// The transactions that are read from a written namespace payload are the
/// transactions of the group that was written.
pub proof fn lemma_group_round_trip(g: Group)
    requires
        ns_payload_len(g.payloads) <= u32::MAX,
    ensures
        ns_payload_txs(ns_payload_encoding(g.payloads), g.namespace) == group_txs(g),
{
    lemma_ns_payload_round_trip(g.payloads);
    assert(ns_payload_txs(ns_payload_encoding(g.payloads), g.namespace) =~= group_txs(g));
}

/// Entry number `i` holds its namespace id and its offset.
pub proof fn lemma_ns_entry(es: Seq<NsEntry>, i: int)
    requires
        0 <= i < es.len(),
        forall|j: int| 0 <= j < es.len() ==> 0 <= (#[trigger] es[j]).end <= u32::MAX,
    ensures
        le64_at(ns_entries_bytes(es), 12 * i) == es[i].namespace,
        le32_at(ns_entries_bytes(es), 12 * i + 8) == es[i].end,
    decreases es.len(),
{
    let front = ns_entries_bytes(es.drop_last());
    let id = le64(es.last().namespace as int);
    let end = le32(es.last().end);
    lemma_ns_entries_len(es.drop_last());
    if i == es.len() - 1 {
        lemma_le64_at_embedded(front, es.last().namespace as int, end);
        lemma_le32_at_embedded(front + id, es.last().end, Seq::empty());
        assert(ns_entries_bytes(es) =~= front + id + end + Seq::empty());
    } else {
        assert forall|j: int| 0 <= j < es.drop_last().len() implies 0 <= (
        #[trigger] es.drop_last()[j]).end <= u32::MAX by {
            assert(es.drop_last()[j] == es[j]);
        }
        lemma_ns_entry(es.drop_last(), i);
        assert(ns_entries_bytes(es) =~= front + (id + end));
        lemma_le64_at_front(front, id + end, 12 * i);
        lemma_le32_at_front(front, id + end, 12 * i + 8);
    }
}

/// A namespace table that was written from entries is read as exactly those
/// entries.
pub proof fn lemma_ns_table_round_trip(es: Seq<NsEntry>)
    requires
        es.len() <= u32::MAX,
        forall|j: int| 0 <= j < es.len() ==> 0 <= (#[trigger] es[j]).end <= u32::MAX,
    ensures
        num_nss(ns_table_bytes(es)) == es.len(),
        forall|i: int|
            0 <= i < es.len() ==> #[trigger] ns_id_at(ns_table_bytes(es), i) == es[i].namespace,
        forall|i: int|
            0 <= i < es.len() ==> #[trigger] ns_offset_at(ns_table_bytes(es), i) == es[i].end,
{
    let n = es.len() as int;
    let entries = ns_entries_bytes(es);
    let table = ns_table_bytes(es);
    lemma_ns_entries_len(es);
    assert(table =~= Seq::<u8>::empty() + le32(n) + entries);
    lemma_le32_at_embedded(Seq::empty(), n, entries);
    assert(num_nss(table) == n);
    assert forall|i: int| 0 <= i < n implies #[trigger] ns_id_at(table, i) == es[i].namespace by {
        lemma_ns_entry(es, i);
        crate::uint_bytes::lemma_le64_at_back(le32(n), entries, 12 * i);
    }
    assert forall|i: int| 0 <= i < n implies #[trigger] ns_offset_at(table, i) == es[i].end by {
        lemma_ns_entry(es, i);
        lemma_le32_at_back(le32(n), entries, 12 * i + 8);
    }
}

/// The table entry of a group says where the payloads up to and including
/// that of the group end.
pub proof fn lemma_group_entry(gs: Seq<Group>, i: int)
    requires
        0 <= i < gs.len(),
    ensures
        group_entries(gs).len() == gs.len(),
        group_entries(gs)[i].namespace == gs[i].namespace,
        group_entries(gs)[i].end == ns_payloads_len(gs.take(i + 1)),
    decreases gs.len(),
{
    lemma_block_len(gs);
    lemma_block_len(gs.drop_last());
    if i == gs.len() - 1 {
        assert(gs.take(i + 1) =~= gs);
    } else {
        lemma_group_entry(gs.drop_last(), i);
        assert(gs.drop_last().take(i + 1) =~= gs.take(i + 1));
    }
}

/// The payload of group number `i` stands among the namespace payloads
/// between the lengths of the payloads before it and up to it.
pub proof fn lemma_ns_payload_at(gs: Seq<Group>, i: int)
    requires
        0 <= i < gs.len(),
    ensures
        0 <= ns_payloads_len(gs.take(i)) <= ns_payloads_len(gs.take(i + 1)) <= ns_payloads_len(gs),
        ns_payloads_encoding(gs).subrange(
            ns_payloads_len(gs.take(i)),
            ns_payloads_len(gs.take(i + 1)),
        ) == ns_payload_encoding(gs[i].payloads),
    decreases gs.len(),
{
    lemma_block_len(gs);
    lemma_block_len(gs.drop_last());
    lemma_ns_payload_len(gs.last().payloads);
    lemma_ns_payloads_len_monotone(gs, i);
    lemma_ns_payloads_len_monotone(gs, i + 1);
    if i == gs.len() - 1 {
        assert(gs.take(i) =~= gs.drop_last());
        assert(gs.take(i + 1) =~= gs);
        assert(ns_payloads_encoding(gs).subrange(
            ns_payloads_len(gs.take(i)),
            ns_payloads_len(gs.take(i + 1)),
        ) =~= ns_payload_encoding(gs[i].payloads));
    } else {
        lemma_ns_payload_at(gs.drop_last(), i);
        assert(gs.drop_last().take(i) =~= gs.take(i));
        assert(gs.drop_last().take(i + 1) =~= gs.take(i + 1));
        assert(ns_payloads_encoding(gs).subrange(
            ns_payloads_len(gs.take(i)),
            ns_payloads_len(gs.take(i + 1)),
        ) =~= ns_payloads_encoding(gs.drop_last()).subrange(
            ns_payloads_len(gs.take(i)),
            ns_payloads_len(gs.take(i + 1)),
        ));
    }
}

/// In a block that was written from groups, the table has one entry for
/// each group, and namespace number `i` is read as group number `i`: its id,
/// its bytes and its transactions. The payloads of the namespaces lie one
/// behind the other and fill the namespace payloads.
pub proof fn lemma_block_namespace(gs: Seq<Group>, i: int)
    requires
        block_byte_len(gs) <= u32::MAX,
        0 <= i < gs.len(),
    ensures
        num_nss(ns_table_encoding(gs)) == gs.len(),
        ns_id_at(ns_table_encoding(gs), i) == gs[i].namespace,
        ns_block_start(block_encoding(gs), i) == ns_payloads_len(gs.take(i)),
        ns_block_end(block_encoding(gs), i) == ns_payloads_len(gs.take(i + 1)),
        ns_payloads_len(gs.take(0)) == 0,
        ns_payloads_len(gs.take(gs.len() as int)) == block_encoding(gs).ns_payloads.len(),
        ns_bytes(block_encoding(gs), i) == ns_payload_encoding(gs[i].payloads),
        ns_txs(block_encoding(gs), i) == group_txs(gs[i]),
{
    let es = group_entries(gs);
    let block = block_encoding(gs);
    let total = ns_payloads_len(gs);
    lemma_block_len(gs);
    assert forall|j: int| 0 <= j < es.len() implies 0 <= (#[trigger] es[j]).end <= u32::MAX by {
        lemma_group_entry(gs, j);
        lemma_ns_payloads_len_monotone(gs, j + 1);
    }
    lemma_ns_table_round_trip(es);
    lemma_group_entry(gs, i);
    lemma_ns_payload_at(gs, i);
    lemma_group_within_block(gs, i);
    assert(ns_id_at(block.ns_table, i) == es[i].namespace);
    assert(ns_offset_at(block.ns_table, i) == es[i].end);
    if i > 0 {
        lemma_group_entry(gs, i - 1);
        assert(ns_offset_at(block.ns_table, i - 1) == es[i - 1].end);
    } else {
        assert(gs.take(0) =~= Seq::<Group>::empty());
    }
    assert(ns_start(block.ns_table, i, total) == ns_payloads_len(gs.take(i)));
    assert(ns_end(block.ns_table, i, total) == ns_payloads_len(gs.take(i + 1)));
    assert(gs.take(0) =~= Seq::<Group>::empty());
    assert(gs.take(gs.len() as int) =~= gs);
    lemma_group_round_trip(gs[i]);
}

/// The first namespaces of a block that was written from groups hold the
/// transactions of the first groups.
pub proof fn lemma_block_txs_before(gs: Seq<Group>, count: int)
    requires
        block_byte_len(gs) <= u32::MAX,
        0 <= count <= gs.len(),
    ensures
        txs_before(block_encoding(gs), count) == grouped_txs(gs.take(count)),
    decreases count,
{
    if count > 0 {
        lemma_block_txs_before(gs, count - 1);
        lemma_block_namespace(gs, count - 1);
        assert(gs.take(count).drop_last() =~= gs.take(count - 1));
    } else {
        assert(gs.take(count) =~= Seq::<Group>::empty());
    }
}

/// A block that was written from groups is read as the transactions of
/// those groups, group after group.
pub proof fn lemma_block_round_trip(gs: Seq<Group>)
    requires
        block_byte_len(gs) <= u32::MAX,
    ensures
        block_txs(block_encoding(gs)) == grouped_txs(gs),
{
    lemma_block_len(gs);
    if gs.len() > 0 {
        lemma_block_namespace(gs, 0);
    } else {
        lemma_ns_table_round_trip(group_entries(gs));
    }
    lemma_block_txs_before(gs, gs.len() as int);
    assert(gs.take(gs.len() as int) =~= gs);
}

/// What is packed fits the budget, unless nothing is packed.
pub proof fn lemma_accepted_fits(txs: Seq<TxView>, budget: int)
    ensures
        accepted_count(txs, budget) <= txs.len(),
        accepted_count(txs, budget) > 0 ==> block_byte_len(
            groups(txs.take(accepted_count(txs, budget) as int)),
        ) <= budget,
    decreases txs.len(),
{
    if txs.len() > 0 {
        lemma_accepted_fits(txs.drop_last(), budget);
        let before = accepted_count(txs.drop_last(), budget);
        if before == txs.len() - 1 && block_byte_len(groups(txs)) <= budget {
            assert(txs.take(txs.len() as int) =~= txs);
        } else {
            assert(txs.drop_last().take(before as int) =~= txs.take(before as int));
        }
    }
}

/// A block never shrinks when a transaction is added.
pub proof fn lemma_block_byte_len_grows(txs: Seq<TxView>)
    requires
        txs.len() > 0,
    ensures
        4 <= block_byte_len(groups(txs.drop_last())) <= block_byte_len(groups(txs)),
{
    lemma_add_tx_cost(groups(txs.drop_last()), txs.last());
    lemma_block_len(groups(txs.drop_last()));
}

/// If the block of all transactions fits the budget, all are packed.
pub proof fn lemma_all_accepted(txs: Seq<TxView>, budget: int)
    requires
        block_byte_len(groups(txs)) <= budget,
    ensures
        accepted_count(txs, budget) == txs.len(),
    decreases txs.len(),
{
    if txs.len() > 0 {
        lemma_block_byte_len_grows(txs);
        lemma_all_accepted(txs.drop_last(), budget);
    }
}

/// A block that is built under a maximum that leaves room for an empty
/// block is no larger than the maximum, namespace table included.
pub proof fn lemma_built_block_within_budget(txs: Seq<TxView>, max_block_size: int)
    requires
        4 <= max_block_size,
    ensures
        built_block(txs, max_block_size).ns_payloads.len() + built_block(
            txs,
            max_block_size,
        ).ns_table.len() == block_byte_len(packed_groups(txs, max_block_size)),
        block_byte_len(packed_groups(txs, max_block_size)) <= max_block_size,
{
    let budget = byte_budget(max_block_size);
    lemma_accepted_fits(txs, budget);
    if accepted_count(txs, budget) == 0 {
        assert(txs.take(0) =~= Seq::<TxView>::empty());
    }
    lemma_block_len(packed_groups(txs, max_block_size));
}

/// The block that is built from any transactions under any maximum is read
/// as the transactions that were packed, grouped by namespace: the groups in
/// the order in which their namespaces first appear, and in each group the
/// transactions in their order.
pub proof fn lemma_built_block_txs(txs: Seq<TxView>, max_block_size: int)
    ensures
        block_txs(built_block(txs, max_block_size)) == grouped_txs(
            packed_groups(txs, max_block_size),
        ),
{
    let budget = byte_budget(max_block_size);
    lemma_accepted_fits(txs, budget);
    if accepted_count(txs, budget) == 0 {
        assert(txs.take(0) =~= Seq::<TxView>::empty());
    }
    lemma_block_round_trip(packed_groups(txs, max_block_size));
}

/// Building a block from transactions whose block fits the maximum, and
/// then reading it, gives all of them back, grouped by namespace: the groups
/// in the order in which their namespaces first appear, and in each group the
/// transactions in their order.
pub proof fn lemma_round_trip(txs: Seq<TxView>, max_block_size: int)
    requires
        block_byte_len(groups(txs)) <= byte_budget(max_block_size),
    ensures
        block_txs(built_block(txs, max_block_size)) == grouped_txs(groups(txs)),
{
    lemma_all_accepted(txs, byte_budget(max_block_size));
    assert(txs.take(txs.len() as int) =~= txs);
    lemma_built_block_txs(txs, max_block_size);
}

} // verus!
