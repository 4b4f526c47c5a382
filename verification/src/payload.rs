//! A whole block: the namespace payloads and the namespace table that says
//! how to read them.
//!
//! Any bytes are valid namespace payloads and any bytes are a valid namespace
//! table. The table decides how the payloads are read. A block that is built
//! here from transactions holds one namespace payload for each namespace, in
//! the order in which the namespaces first appear among the transactions.

use vstd::prelude::*;
use crate::commitment::{builder_commitment_of, commit};
use crate::decoding::{
    block_indices, block_txs, indices_before, lemma_txs_at_indices, ns_bytes, tx_at, txs_before,
    valid_index,
};
use crate::encoding::{
    accepted_count, add_tx, block_byte_len, block_encoding, built_block, byte_budget, group_entries,
    grouped_txs, groups, lemma_accepted_count_stops, lemma_add_tx_cost, lemma_block_len,
    lemma_group_index_is, lemma_group_within_block, lemma_ns_payloads_len_monotone,
    ns_payloads_encoding, packed_groups, tx_cost, BlockView, Group,
};
use crate::iter::{Index, Iter};
use crate::ns_payload::{num_txs, NsPayload, NsPayloadBuilder, TxIndex};
use crate::ns_table::{num_nss, NsIndex, NsPayloadRange, NsTable, NsTableBuilder};
use crate::round_trip::lemma_built_block_txs;
use crate::transaction::{tx_views, NamespaceId, Transaction};
use crate::tx_proof::{windows_at, TxProofWindows};
use crate::uint_bytes::{push_bytes, W};
use crate::vid::VidCommon;

verus! {

/// Why a block could not be built.
#[derive(Clone, Copy, Debug, PartialEq, Eq, Structural)]
pub enum Error {
    /// The maximum block size is more than this machine can address.
    BlockBuilding,
}

/// Number of bytes of the namespace payloads of a block. The namespace table
/// does not count.
#[derive(Clone, Copy, Debug, PartialEq, Eq, Structural)]
pub struct PayloadByteLen(usize);

impl View for PayloadByteLen {
    type V = int;

    closed spec fn view(&self) -> int {
        self.0 as int
    }
}

impl PayloadByteLen {
    /// The length that the common data of a dispersal declares, which must
    /// be one that this machine can address.
    pub fn from_vid_common(common: &VidCommon) -> (len: PayloadByteLen)
        requires
            common@ <= usize::MAX,
        ensures
            len@ == common@,
    {
        PayloadByteLen(common.payload_byte_len() as usize)
    }

    /// Is this the length that the common data of a dispersal declares? A
    /// declared length that this machine cannot address is none that a
    /// payload can have.
    pub fn is_consistent(&self, common: &VidCommon) -> (consistent: Result<(), ()>)
        ensures
            consistent is Ok <==> self@ == common@,
    {
        let declared: u64 = common.payload_byte_len();
        if declared > usize::MAX as u64 {
            return Err(());
        }
        if self.0 == declared as usize {
            Ok(())
        } else {
            Err(())
        }
    }

    /// The length as a number.
    pub fn as_usize(&self) -> (len: usize)
        ensures
            len == self@,
    {
        self.0
    }
}

/// The payload of a whole block.
#[derive(Clone, Debug, PartialEq, Eq, Hash)]
pub struct Payload {
    raw_payload: Vec<u8>,
    ns_table: NsTable,
}

impl View for Payload {
    type V = BlockView;

    closed spec fn view(&self) -> BlockView {
        BlockView { ns_payloads: self.raw_payload@, ns_table: self.ns_table@ }
    }
}

/// The groups that the builders of a block in the making stand for.
pub open spec fn builder_groups(ns_ids: Seq<NamespaceId>, builders: Seq<NsPayloadBuilder>) -> Seq<
    Group,
> {
    Seq::new(ns_ids.len(), |j: int| Group { namespace: ns_ids[j]@, payloads: builders[j]@ })
}

/// Position of the first of `ns_ids` that is `ns`, or their number if none is.
fn find_namespace(ns_ids: &Vec<NamespaceId>, ns: NamespaceId) -> (at: usize)
    ensures
        at <= ns_ids@.len(),
        forall|j: int| 0 <= j < at ==> (#[trigger] ns_ids@[j])@ != ns@,
        at < ns_ids@.len() ==> ns_ids@[at as int]@ == ns@,
{
    let mut at: usize = 0;
    while at < ns_ids.len()
        invariant
            at <= ns_ids@.len(),
            forall|j: int| 0 <= j < at ==> (#[trigger] ns_ids@[j])@ != ns@,
        decreases ns_ids@.len() - at,
    {
        if ns_ids[at].value() == ns.value() {
            return at;
        }
        at += 1;
    }
    at
}

impl Payload {
    /// The namespace table of this block.
    pub fn ns_table(&self) -> (table: &NsTable)
        ensures
            table@ == self@.ns_table,
    {
        &self.ns_table
    }

    /// Number of bytes of the namespace payloads.
    pub fn byte_len(&self) -> (len: PayloadByteLen)
        ensures
            len@ == self@.ns_payloads.len(),
    {
        PayloadByteLen(self.raw_payload.len())
    }

    /// The transaction at `index`; `None` if there is none.
    pub fn transaction(&self, index: &Index) -> (tx: Option<Transaction>)
        ensures
            tx is Some <==> valid_index(self@, index@),
            tx is Some ==> tx->0@ == tx_at(self@, index@),
    {
        proof {
            index.lemma_position_bounds();
        }
        let ns_id = match self.ns_table.read_ns_id(index.ns()) {
            Some(ns_id) => ns_id,
            None => {
                return None;
            },
        };
        let ns_payload = self.ns_payload(index.ns());
        ns_payload.export_tx(&ns_id, index.tx())
    }

    /// The bytes of the namespace payloads at `range`, which must lie
    /// inside them.
    pub fn read_ns_payload(&self, range: &NsPayloadRange) -> (ns_payload: NsPayload<'_>)
        requires
            range.spec_end() <= self@.ns_payloads.len(),
        ensures
            ns_payload@ == self@.ns_payloads.subrange(range.spec_start(), range.spec_end()),
    {
        let (start, end) = range.as_block_range();
        NsPayload::from_bytes_slice(
            vstd::slice::slice_subrange(self.raw_payload.as_slice(), start, end),
        )
    }

    /// The payload of namespace `index`, which must be in the table.
    pub fn ns_payload(&self, index: &NsIndex) -> (ns_payload: NsPayload<'_>)
        requires
            index@ < num_nss(self@.ns_table),
        ensures
            ns_payload@ == ns_bytes(self@, index@),
    {
        let ns_payload_range = self.ns_table().ns_range(index, &self.byte_len());
        self.read_ns_payload(&ns_payload_range)
    }

    /// The block with the namespace payloads `block_payload_bytes` and the
    /// table `ns_table`. Nothing is checked: every pair is a block.
    pub fn from_bytes(block_payload_bytes: &[u8], ns_table: &NsTable) -> (payload: Payload)
        ensures
            payload@ == (BlockView { ns_payloads: block_payload_bytes@, ns_table: ns_table@ }),
    {
        let mut raw_payload: Vec<u8> = Vec::new();
        push_bytes(&mut raw_payload, block_payload_bytes);
        Payload { raw_payload, ns_table: NsTable::from_bytes(ns_table.as_bytes()) }
    }

    /// Packs `transactions` into a block of at most `max_block_byte_len`
    /// bytes, namespace table included.
    ///
    /// The transactions are taken in order. The first with which the block
    /// would grow beyond the limit ends the packing: it and all behind it are
    /// left out. No offset can be written that does not fit in `W` bytes, so
    /// a limit beyond that counts as that.
    fn from_transactions_sync(transactions: &[Transaction], max_block_byte_len: usize) -> (block:
        (Payload, NsTable))
        ensures
            block.0@ == built_block(tx_views(transactions@), max_block_byte_len as int),
            block.1@ == block.0@.ns_table,
            block_txs(block.0@) == grouped_txs(
                packed_groups(tx_views(transactions@), max_block_byte_len as int),
            ),
            block.0@.ns_payloads.len() + block.1@.len() == block_byte_len(
                packed_groups(tx_views(transactions@), max_block_byte_len as int),
            ),
            max_block_byte_len >= W ==> block.0@.ns_payloads.len() + block.1@.len()
                <= max_block_byte_len,
    {
        let ghost txs = tx_views(transactions@);
        let budget: usize = if max_block_byte_len > 0xffff_ffff {
            0xffff_ffff
        } else {
            max_block_byte_len
        };
        assert(budget == byte_budget(max_block_byte_len as int));
        let mut used: usize = NsTableBuilder::fixed_overhead_byte_len();

        // add each tx to its namespace
        let mut ns_ids: Vec<NamespaceId> = Vec::new();
        let mut ns_builders: Vec<NsPayloadBuilder> = Vec::new();
        let mut i: usize = 0;
        let mut full: bool = false;
        proof {
            assert(txs.take(0) =~= Seq::empty());
            assert(builder_groups(ns_ids@, ns_builders@) =~= groups(txs.take(0)));
        }
        while i < transactions.len() && !full
            invariant
                txs == tx_views(transactions@),
                budget <= u32::MAX,
                i <= transactions@.len(),
                ns_ids@.len() == ns_builders@.len(),
                forall|j: int| 0 <= j < ns_builders@.len() ==> (#[trigger] ns_builders@[j]).wf(),
                builder_groups(ns_ids@, ns_builders@) == groups(txs.take(i as int)),
                used == block_byte_len(groups(txs.take(i as int))),
                i > 0 ==> used <= budget,
                accepted_count(txs.take(i as int), budget as int) == i,
                full ==> i < transactions@.len() && accepted_count(
                    txs.take(i + 1),
                    budget as int,
                ) == i,
            decreases transactions@.len() - i, if full { 0int } else { 1int },
        {
            let tx = &transactions[i];
            let ns = tx.namespace();
            let payload = tx.payload();
            let at = find_namespace(&ns_ids, ns);
            let ghost gs = groups(txs.take(i as int));
            proof {
                assert(txs.take(i + 1).drop_last() =~= txs.take(i as int));
                assert(txs.take(i + 1).last() == tx@);
                lemma_group_index_is(gs, tx@.namespace, at as int);
                lemma_add_tx_cost(gs, tx@);
            }
            // accounting for block byte length limit: each new namespace adds overhead
            let overhead: usize = if at == ns_ids.len() {
                NsPayloadBuilder::tx_overhead_byte_len() + NsTableBuilder::ns_overhead_byte_len()
                    + NsPayloadBuilder::fixed_overhead_byte_len()
            } else {
                NsPayloadBuilder::tx_overhead_byte_len()
            };
            assert(overhead + payload@.len() == tx_cost(gs, tx@));
            if used > budget || overhead > budget - used || payload.len() > budget - used
                - overhead {
                full = true;
            } else {
                if at == ns_ids.len() {
                    ns_ids.push(ns);
                    ns_builders.push(NsPayloadBuilder::new());
                    assert(builder_groups(ns_ids@, ns_builders@) =~= gs.push(
                        Group { namespace: ns@, payloads: Seq::empty() },
                    ));
                } else {
                    proof {
                        lemma_group_within_block(gs, at as int);
                    }
                }
                let ghost before = builder_groups(ns_ids@, ns_builders@);
                ns_builders[at].append_payload(payload);
                used = used + overhead + payload.len();
                proof {
                    let after = builder_groups(ns_ids@, ns_builders@);
                    assert(after =~= add_tx(gs, tx@)) by {
                        assert(Seq::<Seq<u8>>::empty().push(tx@.payload) =~= seq![tx@.payload]);
                    }
                }
                i += 1;
            }
        }
        let ghost gs = groups(txs.take(i as int));
        proof {
            if full {
                lemma_accepted_count_stops(txs, budget as int, i + 1);
            } else {
                assert(txs.take(i as int) =~= txs);
            }
            assert(gs == packed_groups(txs, max_block_byte_len as int));
            lemma_block_len(gs);
            lemma_built_block_txs(txs, max_block_byte_len as int);
        }

        // build block payload and namespace table
        let mut payload: Vec<u8> = Vec::new();
        let mut ns_table_builder = NsTableBuilder::new();
        let mut k: usize = 0;
        proof {
            assert(gs.take(0) =~= Seq::empty());
        }
        while k < ns_ids.len()
            invariant
                k <= ns_ids@.len(),
                ns_ids@.len() == ns_builders@.len(),
                forall|j: int| 0 <= j < ns_builders@.len() ==> (#[trigger] ns_builders@[j]).wf(),
                builder_groups(ns_ids@, ns_builders@) == gs,
                ns_ids@.len() > 0 ==> block_byte_len(gs) <= u32::MAX,
                ns_table_builder.wf(),
                payload@ == ns_payloads_encoding(gs.take(k as int)),
                ns_table_builder@ == group_entries(gs.take(k as int)),
            decreases ns_ids@.len() - k,
        {
            proof {
                assert(gs.take(k + 1).drop_last() =~= gs.take(k as int));
                assert(gs.take(k + 1).last() == gs[k as int]);
                lemma_group_within_block(gs, k as int);
                lemma_ns_payloads_len_monotone(gs, k + 1);
                lemma_block_len(gs.take(k + 1));
            }
            ns_builders[k].write_to(&mut payload);
            ns_table_builder.append_entry(ns_ids[k], payload.len());
            k += 1;
        }
        proof {
            assert(gs.take(k as int) =~= gs);
            if gs.len() > 0 {
                lemma_group_within_block(gs, 0);
            }
        }
        let ns_table = ns_table_builder.into_ns_table();
        let metadata = NsTable::from_bytes(ns_table.as_bytes());
        (Payload { raw_payload: payload, ns_table }, metadata)
    }

    /// Packs `transactions` into a block of at most `max_block_size` bytes,
    /// namespace table included, and returns the block and its table.
    ///
    /// The transactions are taken in order; the first that does not fit ends
    /// the packing, and it and all behind it are left out. That is no error.
    /// The only error is a maximum that this machine cannot address.
    ///
    /// The block is a function of the transactions and the maximum, the same
    /// on every machine that can address the maximum. Read back, it gives the
    /// transactions that were packed, grouped by namespace.
    pub fn from_transactions(transactions: &[Transaction], max_block_size: u64) -> (block:
        Result<(Payload, NsTable), Error>)
        ensures
            block is Err <==> max_block_size > usize::MAX,
            block is Err ==> block == Err::<(Payload, NsTable), Error>(Error::BlockBuilding),
            block is Ok ==> {
                &&& block->Ok_0.0@ == built_block(tx_views(transactions@), max_block_size as int)
                &&& block->Ok_0.1@ == block->Ok_0.0@.ns_table
                &&& block_txs(block->Ok_0.0@) == grouped_txs(
                    packed_groups(tx_views(transactions@), max_block_size as int),
                )
                &&& block->Ok_0.0@.ns_payloads.len() + block->Ok_0.1@.len() == block_byte_len(
                    packed_groups(tx_views(transactions@), max_block_size as int),
                )
                &&& max_block_size >= W ==> block->Ok_0.0@.ns_payloads.len()
                    + block->Ok_0.1@.len() <= max_block_size
            },
    {
        if max_block_size > usize::MAX as u64 {
            return Err(Error::BlockBuilding);
        }
        Ok(Self::from_transactions_sync(transactions, max_block_size as usize))
    }

    /// The commitment that binds this block to `metadata`: the SHA-256 digest
    /// of the lengths of the namespace payloads, of the table and of the
    /// metadata, and of those three byte strings. The metadata of a block is
    /// its namespace table, which is so hashed twice.
    pub fn builder_commitment(&self, metadata: &NsTable) -> (digest: [u8; 32])
        ensures
            digest@ == builder_commitment_of(self@, metadata@),
    {
        commit(self.raw_payload.as_slice(), self.ns_table.as_bytes(), metadata.as_bytes())
    }

    /// A copy of the namespace payloads.
    pub fn encode(&self) -> (bytes: Vec<u8>)
        ensures
            bytes@ == self@.ns_payloads,
    {
        let mut bytes: Vec<u8> = Vec::new();
        push_bytes(&mut bytes, self.raw_payload.as_slice());
        bytes
    }

    /// All transactions of the block, each with its address, in the order
    /// of the addresses.
    pub fn enumerate(&self, _metadata: &NsTable) -> (all: Vec<(Index, Transaction)>)
        ensures
            all@.len() == block_indices(self@).len(),
            forall|k: int|
                0 <= k < all@.len() ==> (#[trigger] all@[k]).0@ == block_indices(self@)[k]
                    && all@[k].1@ == block_txs(self@)[k],
    {
        let count = self.ns_table.len();
        let mut all: Vec<(Index, Transaction)> = Vec::new();
        let mut ns: usize = 0;
        while ns < count
            invariant
                count == num_nss(self@.ns_table),
                ns <= count,
                all@.len() == indices_before(self@, ns as int).len(),
                forall|k: int|
                    0 <= k < all@.len() ==> (#[trigger] all@[k]).0@ == indices_before(
                        self@,
                        ns as int,
                    )[k] && all@[k].1@ == txs_before(self@, ns as int)[k],
            decreases count - ns,
        {
            let ns_index = NsIndex::new(ns);
            let ns_id = self.ns_table.read_ns_id_unchecked(&ns_index);
            let ns_payload = self.ns_payload(&ns_index);
            let n = ns_payload.num_txs();
            let ghost before = all@;
            let mut tx: usize = 0;
            proof {
                lemma_txs_at_indices(self@, ns as int);
                lemma_txs_at_indices(self@, ns + 1);
                crate::uint_bytes::lemma_le64_at_bounds(
                    self@.ns_table,
                    crate::ns_table::ns_entry_pos(ns as int),
                );
            }
            while tx < n
                invariant
                    ns < count,
                    count == num_nss(self@.ns_table),
                    ns_index@ == ns,
                    ns_payload@ == ns_bytes(self@, ns as int),
                    ns_id@ == crate::decoding::ns_id(self@, ns as int),
                    n == num_txs(ns_bytes(self@, ns as int)),
                    tx <= n,
                    before.len() == indices_before(self@, ns as int).len(),
                    before.len() == txs_before(self@, ns as int).len(),
                    all@.len() == before.len() + tx,
                    forall|k: int|
                        0 <= k < all@.len() ==> (#[trigger] all@[k]).0@ == indices_before(
                            self@,
                            ns + 1,
                        )[k] && all@[k].1@ == txs_before(self@, ns + 1)[k],
                decreases n - tx,
            {
                let tx_index = TxIndex::new(tx);
                let transaction = ns_payload.export_tx(&ns_id, &tx_index).unwrap();
                all.push((Index::new(ns_index, tx_index), transaction));
                tx += 1;
            }
            ns += 1;
        }
        all
    }

    /// All transactions of the block, in the order of their addresses.
    pub fn transactions(&self, metadata: &NsTable) -> (txs: Vec<Transaction>)
        ensures
            tx_views(txs@) == block_txs(self@),
    {
        let mut all = self.enumerate(metadata);
        let mut txs: Vec<Transaction> = Vec::new();
        let ghost listed = all@;
        let mut k: usize = 0;
        proof {
            lemma_txs_at_indices(self@, num_nss(self@.ns_table));
        }
        while k < all.len()
            invariant
                all@ == listed,
                k <= all@.len(),
                txs@.len() == k,
                forall|j: int| 0 <= j < k ==> (#[trigger] txs@[j])@ == listed[j].1@,
            decreases all@.len() - k,
        {
            let mut payload: Vec<u8> = Vec::new();
            push_bytes(&mut payload, all[k].1.payload());
            txs.push(Transaction::new(all[k].1.namespace(), payload));
            k += 1;
        }
        assert(tx_views(txs@) =~= block_txs(self@));
        txs
    }

    /// The number of transactions of the block. A number that this machine
    /// cannot count to is given as the largest that it can.
    pub fn len(&self, _metadata: &NsTable) -> (n: usize)
        ensures
            n == if block_txs(self@).len() > usize::MAX {
                usize::MAX as int
            } else {
                block_txs(self@).len() as int
            },
    {
        let count = self.ns_table.len();
        let mut n: usize = 0;
        let mut ns: usize = 0;
        while ns < count
            invariant
                count == num_nss(self@.ns_table),
                ns <= count,
                n == if txs_before(self@, ns as int).len() > usize::MAX {
                    usize::MAX as int
                } else {
                    txs_before(self@, ns as int).len() as int
                },
            decreases count - ns,
        {
            let in_ns = self.ns_payload(&NsIndex::new(ns)).num_txs();
            n = if in_ns > usize::MAX - n {
                usize::MAX
            } else {
                n + in_ns
            };
            ns += 1;
        }
        n
    }

    /// The number of transactions of the block, as `len` gives it.
    pub fn txn_count(&self) -> (n: u64)
        ensures
            n == if block_txs(self@).len() > usize::MAX {
                usize::MAX as int
            } else {
                block_txs(self@).len() as int
            },
    {
        self.len(&self.ns_table) as u64
    }

    /// The transaction at `index` and what a proof for it must open: the
    /// ranges of the namespace payloads, and what was read of the
    /// transaction table on the way to them. `None` if there is no
    /// transaction at `index`.
    pub fn transaction_with_proof(&self, _metadata: &NsTable, index: &Index) -> (found: Option<
        (Transaction, TxProofWindows),
    >)
        ensures
            found is Some <==> valid_index(self@, index@),
            found is Some ==> found->Some_0.0@ == tx_at(self@, index@),
            found is Some ==> windows_at(found->Some_0.1, self@, index@),
            found is Some ==> found->Some_0.1.within(self@.ns_payloads.len() as int),
    {
        let common = VidCommon::new(self.raw_payload.len() as u64);
        TxProofWindows::new(index, self, &common)
    }

    /// A walk through the addresses of all transactions of the block.
    pub fn iter(&self, _metadata: &NsTable) -> (iter: Iter<'_>)
        ensures
            iter.block() == self@,
            iter.remaining() == block_indices(self@),
    {
        Iter::new(self)
    }

    /// The block with which a chain starts: the block without transactions.
    pub fn genesis() -> (payload: Payload)
        ensures
            payload@ == block_encoding(Seq::<Group>::empty()),
    {
        Self::empty().0
    }

    /// The block without transactions, and its table.
    pub fn empty() -> (block: (Payload, NsTable))
        ensures
            block.0@ == block_encoding(Seq::<Group>::empty()),
            block.1@ == block.0@.ns_table,
    {
        let transactions: Vec<Transaction> = Vec::new();
        proof {
            assert(tx_views(transactions@) =~= Seq::empty());
            assert(tx_views(transactions@).take(0) =~= Seq::empty());
        }
        Self::from_transactions_sync(transactions.as_slice(), 0)
    }
}

} // verus!
