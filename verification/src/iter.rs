//! Addresses of transactions in a block, and walking through them in order.

use vstd::prelude::*;
use crate::decoding::{indices_before, ns_bytes, ns_indices, valid_index, IndexView};
use crate::encoding::BlockView;
use crate::ns_payload::{num_txs, TxIndex};
use crate::ns_table::{num_nss, NsIndex};
use crate::payload::Payload;

verus! {

/// The address of a transaction in a block.
#[derive(Clone, Copy, Debug, PartialEq, Eq, Hash, Structural)]
pub struct Index {
    ns_index: NsIndex,
    tx_index: TxIndex,
}

impl View for Index {
    type V = IndexView;

    closed spec fn view(&self) -> IndexView {
        IndexView { ns: self.ns_index@, tx: self.tx_index@ }
    }
}

impl Index {
    /// The address of transaction `tx_index` of namespace `ns_index`.
    pub fn new(ns_index: NsIndex, tx_index: TxIndex) -> (index: Index)
        ensures
            index@ == (IndexView { ns: ns_index@, tx: tx_index@ }),
    {
        Index { ns_index, tx_index }
    }

    /// Neither position of an address is negative.
    pub proof fn lemma_position_bounds(self)
        ensures
            0 <= self@.ns <= usize::MAX,
            0 <= self@.tx <= usize::MAX,
    {
        self.ns_index.lemma_position_bounds();
        self.tx_index.lemma_position_bounds();
    }

    /// The position of the namespace in the namespace table.
    pub fn ns(&self) -> (ns_index: &NsIndex)
        ensures
            ns_index@ == self@.ns,
    {
        &self.ns_index
    }

    /// The position of the transaction in its namespace.
    pub fn tx(&self) -> (tx_index: &TxIndex)
        ensures
            tx_index@ == self@.tx,
    {
        &self.tx_index
    }
}

/// The addresses of the transactions of `block` from transaction `tx` of
/// namespace `ns` on, in order.
pub open spec fn indices_from(block: BlockView, ns: int, tx: int) -> Seq<IndexView>
    decreases num_nss(block.ns_table) - ns, num_txs(ns_bytes(block, ns)) - tx,
{
    if ns < 0 || tx < 0 || ns >= num_nss(block.ns_table) {
        Seq::empty()
    } else if tx < num_txs(ns_bytes(block, ns)) {
        seq![IndexView { ns: ns, tx: tx }] + indices_from(block, ns, tx + 1)
    } else {
        indices_from(block, ns + 1, 0)
    }
}

/// From a transaction of a namespace on, the addresses are the rest of that
/// namespace and then all of the namespaces behind it.
pub proof fn lemma_indices_from_ns(block: BlockView, ns: int, tx: int)
    requires
        0 <= ns < num_nss(block.ns_table),
        0 <= tx <= num_txs(ns_bytes(block, ns)),
    ensures
        indices_from(block, ns, tx) == ns_indices(block, ns).skip(tx) + indices_from(
            block,
            ns + 1,
            0,
        ),
    decreases num_txs(ns_bytes(block, ns)) - tx,
{
    let n = num_txs(ns_bytes(block, ns));
    if tx < n {
        lemma_indices_from_ns(block, ns, tx + 1);
        assert(ns_indices(block, ns).skip(tx) =~= seq![IndexView { ns: ns, tx: tx }] + ns_indices(
            block,
            ns,
        ).skip(tx + 1));
    } else {
        assert(ns_indices(block, ns).skip(tx) =~= Seq::empty());
    }
}

/// The addresses of the first namespaces and those from the next namespace on
/// are all addresses of the block.
pub proof fn lemma_indices_split(block: BlockView, count: int)
    requires
        0 <= count <= num_nss(block.ns_table),
    ensures
        indices_before(block, count) + indices_from(block, count, 0) == indices_from(block, 0, 0),
    decreases count,
{
    if count > 0 {
        lemma_indices_split(block, count - 1);
        lemma_indices_from_ns(block, count - 1, 0);
        assert(ns_indices(block, count - 1).skip(0) =~= ns_indices(block, count - 1));
        assert(indices_before(block, count) + indices_from(block, count, 0) =~= indices_before(
            block,
            count - 1,
        ) + indices_from(block, count - 1, 0));
    } else {
        assert(indices_before(block, count) + indices_from(block, count, 0) =~= indices_from(
            block,
            0,
            0,
        ));
    }
}

/// Walks through the addresses of the transactions of a block: namespace
/// after namespace in the order of the table, and inside a namespace
/// transaction after transaction.
pub struct Iter<'a> {
    block: &'a Payload,
    ns: usize,
    tx: usize,
}

impl<'a> Iter<'a> {
    /// The block that is walked through.
    pub closed spec fn block(&self) -> BlockView {
        self.block@
    }

    /// The addresses that are still to come, in order.
    pub closed spec fn remaining(&self) -> Seq<IndexView> {
        indices_from(self.block@, self.ns as int, self.tx as int)
    }

    /// A walk through `block` that starts at its first transaction.
    pub fn new(block: &'a Payload) -> (iter: Iter<'a>)
        ensures
            iter.block() == block@,
            iter.remaining() == crate::decoding::block_indices(block@),
    {
        proof {
            lemma_indices_split(block@, num_nss(block@.ns_table));
            assert(indices_from(block@, num_nss(block@.ns_table), 0) =~= Seq::empty());
            assert(indices_from(block@, 0, 0) =~= crate::decoding::block_indices(block@));
        }
        Iter { block, ns: 0, tx: 0 }
    }

    /// The next address, or `None` when all have been given.
    pub fn next(&mut self) -> (index: Option<Index>)
        ensures
            final(self).block() == old(self).block(),
            old(self).remaining().len() == 0 ==> index is None && final(self).remaining().len()
                == 0,
            old(self).remaining().len() > 0 ==> index is Some && index->0@ == old(
                self,
            ).remaining()[0] && final(self).remaining() == old(self).remaining().drop_first()
                && valid_index(old(self).block(), index->0@),
    {
        let count = self.block.ns_table().len();
        while self.ns < count
            invariant
                count == num_nss(self.block@.ns_table),
                self.block == old(self).block,
                indices_from(self.block@, self.ns as int, self.tx as int) == old(self).remaining(),
            decreases count - self.ns,
        {
            let ns_index = NsIndex::new(self.ns);
            let n = self.block.ns_payload(&ns_index).num_txs();
            if self.tx < n {
                let index = Index::new(ns_index, TxIndex::new(self.tx));
                self.tx = self.tx + 1;
                assert(old(self).remaining().drop_first() =~= indices_from(
                    self.block@,
                    self.ns as int,
                    self.tx as int,
                ));
                return Some(index);
            }
            self.ns = self.ns + 1;
            self.tx = 0;
        }
        None
    }
}

} // verus!
