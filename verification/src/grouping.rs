//! What the grouping of transactions keeps: every transaction, the order of
//! the transactions of each namespace, and the order in which the namespaces
//! first appear.

use vstd::prelude::*;
use crate::encoding::{add_tx, group_index, groups, lemma_group_index, Group};
use crate::transaction::TxView;

verus! {

/// The payloads of the transactions of namespace `ns` among `txs`, in order.
pub open spec fn namespace_payloads(txs: Seq<TxView>, ns: u64) -> Seq<Seq<u8>>
    decreases txs.len(),
{
    if txs.len() == 0 {
        Seq::empty()
    } else if txs.last().namespace == ns {
        namespace_payloads(txs.drop_last(), ns).push(txs.last().payload)
    } else {
        namespace_payloads(txs.drop_last(), ns)
    }
}

/// Position of the first transaction of namespace `ns` among `txs`, or
/// `txs.len()` if there is none.
pub open spec fn first_tx_index(txs: Seq<TxView>, ns: u64) -> int
    decreases txs.len(),
{
    if txs.len() == 0 {
        0
    } else {
        let before = first_tx_index(txs.drop_last(), ns);
        if before < txs.len() - 1 {
            before
        } else if txs.last().namespace == ns {
            txs.len() - 1
        } else {
            txs.len() as int
        }
    }
}

/// What `first_tx_index` returns is the first transaction of the namespace
/// and no other position.
pub proof fn lemma_first_tx_index(txs: Seq<TxView>, ns: u64)
    ensures
        0 <= first_tx_index(txs, ns) <= txs.len(),
        first_tx_index(txs, ns) < txs.len() ==> txs[first_tx_index(txs, ns)].namespace == ns,
        forall|j: int| 0 <= j < first_tx_index(txs, ns) ==> (#[trigger] txs[j]).namespace != ns,
    decreases txs.len(),
{
    if txs.len() > 0 {
        lemma_first_tx_index(txs.drop_last(), ns);
        assert(forall|j: int| 0 <= j < txs.len() - 1 ==> txs.drop_last()[j] == txs[j]);
    }
}

/// Each group holds the transactions of its namespace, all of them and in
/// their order, and a namespace without a group has no transaction. No group
/// is empty.
pub proof fn lemma_group_payloads(txs: Seq<TxView>, ns: u64)
    ensures
        group_index(groups(txs), ns) < groups(txs).len() ==> groups(txs)[group_index(
            groups(txs),
            ns,
        )].payloads == namespace_payloads(txs, ns) && namespace_payloads(txs, ns).len() > 0,
        group_index(groups(txs), ns) >= groups(txs).len() ==> namespace_payloads(txs, ns).len()
            == 0,
    decreases txs.len(),
{
    if txs.len() > 0 {
        let before = groups(txs.drop_last());
        let tx = txs.last();
        lemma_group_payloads(txs.drop_last(), ns);
        lemma_group_payloads(txs.drop_last(), tx.namespace);
        lemma_group_index(before, ns);
        lemma_group_index(before, tx.namespace);
        lemma_add_tx_keeps_index(before, tx, ns);
    }
}

/// Adding a transaction leaves every group at its place; a new group comes
/// behind all others.
pub proof fn lemma_add_tx_keeps_index(gs: Seq<Group>, tx: TxView, ns: u64)
    ensures
        group_index(gs, ns) < gs.len() ==> group_index(add_tx(gs, tx), ns) == group_index(gs, ns),
        group_index(gs, ns) >= gs.len() && tx.namespace == ns ==> group_index(add_tx(gs, tx), ns)
            == gs.len(),
        group_index(gs, ns) >= gs.len() && tx.namespace != ns ==> group_index(add_tx(gs, tx), ns)
            == add_tx(gs, tx).len(),
        forall|j: int| 0 <= j < gs.len() ==> (#[trigger] add_tx(gs, tx)[j]).namespace
            == gs[j].namespace,
        gs.len() <= add_tx(gs, tx).len() <= gs.len() + 1,
{
    let after = add_tx(gs, tx);
    lemma_group_index(gs, ns);
    lemma_group_index(gs, tx.namespace);
    lemma_group_index(after, ns);
    assert forall|j: int| 0 <= j < gs.len() implies (#[trigger] after[j]).namespace
        == gs[j].namespace by {}
    let at = group_index(gs, ns);
    let found = group_index(after, ns);
    if at < gs.len() {
        assert(after[at].namespace == ns);
        if found < at {
            assert(after[found].namespace == gs[found].namespace);
        }
    } else {
        if found < gs.len() {
            assert(after[found].namespace == gs[found].namespace);
        }
    }
}

/// The groups stand in the order in which their namespaces first appear
/// among the transactions.
pub proof fn lemma_groups_order(txs: Seq<TxView>)
    ensures
        forall|i: int|
            0 <= i < groups(txs).len() ==> first_tx_index(
                txs,
                (#[trigger] groups(txs)[i]).namespace,
            ) < txs.len(),
        forall|i: int, j: int|
            0 <= i < j < groups(txs).len() ==> first_tx_index(
                txs,
                (#[trigger] groups(txs)[i]).namespace,
            ) < first_tx_index(txs, (#[trigger] groups(txs)[j]).namespace),
    decreases txs.len(),
{
    if txs.len() > 0 {
        let rest = txs.drop_last();
        let before = groups(rest);
        let tx = txs.last();
        let after = groups(txs);
        lemma_groups_order(rest);
        lemma_add_tx_keeps_index(before, tx, tx.namespace);
        lemma_group_index(before, tx.namespace);
        lemma_namespace_known(rest, tx.namespace);
        lemma_first_tx_index(rest, tx.namespace);
        assert forall|i: int| 0 <= i < after.len() implies first_tx_index(
            txs,
            (#[trigger] after[i]).namespace,
        ) < txs.len() && (i < before.len() ==> first_tx_index(txs, after[i].namespace)
            == first_tx_index(rest, before[i].namespace)) && (i >= before.len()
            ==> first_tx_index(txs, after[i].namespace) == txs.len() - 1) by {
            if i < before.len() {
                assert(after[i].namespace == before[i].namespace);
            }
        }
    }
}

/// A namespace has a group exactly if it has a transaction.
pub proof fn lemma_namespace_known(txs: Seq<TxView>, ns: u64)
    ensures
        group_index(groups(txs), ns) < groups(txs).len() <==> first_tx_index(txs, ns) < txs.len(),
    decreases txs.len(),
{
    if txs.len() > 0 {
        lemma_namespace_known(txs.drop_last(), ns);
        lemma_add_tx_keeps_index(groups(txs.drop_last()), txs.last(), ns);
        lemma_first_tx_index(txs.drop_last(), ns);
        lemma_group_index(groups(txs.drop_last()), ns);
    }
}

} // verus!
