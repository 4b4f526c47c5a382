//! Proof that a transaction stands at an address of a block whose namespace
//! payloads have been dispersed.
//!
//! The scheme that disperses the namespace payloads can open a range of
//! their bytes: it proves to someone who holds only the commitment that the
//! payloads have given bytes at given places. A proof for one transaction
//! opens three ranges: the number of transactions of its namespace, the
//! offsets between which the transaction lies, and the bytes of the
//! transaction itself.
//!
//! The namespace table is not among the dispersed bytes, so no range of it
//! can be opened. It is metadata of the block: whoever builds the block
//! binds the table to the namespace payloads with the builder commitment,
//! and the header of the block carries table and commitment. Whoever checks
//! a proof takes the table from a header that consensus has decided on, and
//! reads from it where the namespace of the transaction lies. Nothing here
//! checks the table against a header.
//!
//! The scheme is not part of this library. This module decides which ranges
//! are opened and which bytes a proof claims to stand there. The caller has
//! the scheme open the ranges and check the claims.

use vstd::prelude::*;
use crate::decoding::{
    ns_block_start, ns_bytes, tx_at, tx_block_end, tx_block_start, valid_index, IndexView,
};
use crate::encoding::BlockView;
use crate::iter::Index;
use crate::ns_payload::{declared_num_txs, num_txs_of, tx_offset, TxIndex, TxTableEntries};
use crate::ns_table::{first_ns_index, ns_end, ns_start, num_nss, NsTable};
use crate::payload::{Payload, PayloadByteLen};
use crate::transaction::{Transaction, TxView};
use crate::uint_bytes::{le32, push_bytes, push_u32, W};
use crate::vid::VidCommon;

verus! {

/// A range of bytes among the namespace payloads: from `start` up to, but
/// not including, `end`.
#[derive(Clone, Copy, Debug, PartialEq, Eq, Hash, Structural)]
pub struct ByteRange {
    /// The position of the first byte.
    pub start: usize,
    /// The position behind the last byte.
    pub end: usize,
}

impl ByteRange {
    /// Does the range hold no byte?
    pub fn is_empty(&self) -> (empty: bool)
        ensures
            empty == (self.start >= self.end),
    {
        self.start >= self.end
    }
}

/// Where in its namespace payload the offsets around transaction `tx` start:
/// the first transaction has no offset before it, so there the range holds
/// one offset, and else two.
pub open spec fn entries_window_start(tx: int) -> int {
    if tx <= 0 {
        4
    } else {
        4 * tx
    }
}

/// Where in its namespace payload the offsets around transaction `tx` end.
pub open spec fn entries_window_end(tx: int) -> int {
    4 * (tx + 2)
}

/// The bytes of the offsets around transaction `tx`, if the offsets are
/// `prev` and `cur`.
pub open spec fn entries_window_bytes(tx: int, prev: int, cur: int) -> Seq<u8> {
    if tx <= 0 {
        le32(cur)
    } else {
        le32(prev) + le32(cur)
    }
}

/// What a proof for one transaction must open: the ranges, and what was
/// read of the transaction table on the way to them.
#[derive(Clone, Copy, Debug, PartialEq, Eq, Structural)]
pub struct TxProofWindows {
    /// The position of the transaction in its namespace.
    pub tx_index: TxIndex,
    /// The number of transactions that the namespace payload declares.
    pub payload_num_txs: u32,
    /// Where that number stands.
    pub num_txs_range: ByteRange,
    /// The offsets around the transaction, as the table has them.
    pub payload_tx_table_entries: TxTableEntries,
    /// Where those offsets stand.
    pub tx_table_entries_range: ByteRange,
    /// Where the bytes of the transaction stand.
    pub tx_payload_range: ByteRange,
}

impl TxProofWindows {
    /// Do all three ranges lie inside `len` bytes, each with its start no
    /// later than its end?
    pub open spec fn within(&self, len: int) -> bool {
        &&& self.num_txs_range.start <= self.num_txs_range.end <= len
        &&& self.tx_table_entries_range.start <= self.tx_table_entries_range.end <= len
        &&& self.tx_payload_range.start <= self.tx_payload_range.end <= len
    }
}

/// Are `windows` the windows of the transaction at `index` of `block`?
pub open spec fn windows_at(windows: TxProofWindows, block: BlockView, index: IndexView) -> bool {
    let ns = ns_bytes(block, index.ns);
    let base = ns_block_start(block, index.ns);
    &&& windows.tx_index@ == index.tx
    &&& windows.payload_num_txs == declared_num_txs(ns)
    &&& windows.num_txs_range.start == base
    &&& windows.num_txs_range.end == base + W
    &&& windows.payload_tx_table_entries.prev == tx_offset(ns, index.tx)
    &&& windows.payload_tx_table_entries.cur == tx_offset(ns, index.tx + 1)
    &&& windows.tx_table_entries_range.start == base + entries_window_start(index.tx)
    &&& windows.tx_table_entries_range.end == base + entries_window_end(index.tx)
    &&& windows.tx_payload_range.start == tx_block_start(block, index)
    &&& windows.tx_payload_range.end == tx_block_end(block, index)
}

/// A proof that a transaction stands in a block. `P` is what the dispersal
/// scheme gives as the opening of a range.
#[derive(Clone, Debug, PartialEq, Eq)]
pub struct TxProof<P> {
    /// The position of the transaction in its namespace.
    pub tx_index: TxIndex,
    /// The number of transactions that the namespace payload declares.
    pub payload_num_txs: u32,
    /// The opening of the range where that number stands.
    pub payload_proof_num_txs: P,
    /// The offsets around the transaction, as the table has them.
    pub payload_tx_table_entries: TxTableEntries,
    /// The opening of the range where those offsets stand.
    pub payload_proof_tx_table_entries: P,
    /// The opening of the range where the bytes of the transaction stand;
    /// `None` if the transaction has no bytes.
    pub payload_proof_tx: Option<P>,
}

/// A claim that the namespace payloads have the bytes `bytes` at `range`.
#[derive(Clone, Debug, PartialEq, Eq)]
pub struct Claim {
    /// Where the bytes are said to stand.
    pub range: ByteRange,
    /// The bytes that are said to stand there.
    pub bytes: Vec<u8>,
}

/// What a proof claims of the namespace payloads. The proof holds if the
/// opening of each range supports the claim.
#[derive(Clone, Debug, PartialEq, Eq)]
pub struct TxProofClaims {
    /// The number of transactions of the namespace.
    pub num_txs: Claim,
    /// The offsets around the transaction.
    pub tx_table_entries: Claim,
    /// The bytes of the transaction; `None` if it has none.
    pub tx_payload: Option<Claim>,
}

/// Number of bytes that the table gives to the namespace in which a proof
/// for `tx` is checked, among `total` bytes of namespace payloads.
pub open spec fn claimed_ns_len(table: Seq<u8>, tx: TxView, total: int) -> int {
    let ns = first_ns_index(table, tx.namespace);
    ns_end(table, ns, total) - ns_start(table, ns, total)
}

/// Can `proof` be a proof for `tx` at all, against the table `table` and
/// `total` dispersed bytes? It can if the namespace of `tx` is in the table,
/// if the table of transactions that the proof tells of fits the namespace
/// and has the transaction, if the offsets around the transaction are in
/// order and inside the namespace, if `tx` has as many bytes as lie between
/// them, and if the proof opens the bytes of the transaction exactly if
/// there are any.
pub open spec fn can_claim<P>(proof: TxProof<P>, table: Seq<u8>, tx: TxView, total: int) -> bool {
    let ns_len = claimed_ns_len(table, tx, total);
    let declared = proof.payload_num_txs as int;
    let prev = proof.payload_tx_table_entries.prev as int;
    let cur = proof.payload_tx_table_entries.cur as int;
    &&& 0 <= total <= usize::MAX
    &&& first_ns_index(table, tx.namespace) < num_nss(table)
    &&& 4 + 4 * declared <= ns_len
    &&& 0 <= proof.tx_index@ < declared
    &&& proof.tx_index@ == 0 ==> prev == 0
    &&& prev <= cur <= ns_len - (4 + 4 * declared)
    &&& tx.payload.len() == cur - prev
    &&& proof.payload_proof_tx is Some <==> prev < cur
}

/// Are `claims` what `proof` claims for `tx`, against the table `table` and
/// `total` dispersed bytes?
pub open spec fn claims_of<P>(
    claims: TxProofClaims,
    proof: TxProof<P>,
    table: Seq<u8>,
    tx: TxView,
    total: int,
) -> bool {
    let base = ns_start(table, first_ns_index(table, tx.namespace), total);
    let declared = proof.payload_num_txs as int;
    let prev = proof.payload_tx_table_entries.prev as int;
    let cur = proof.payload_tx_table_entries.cur as int;
    &&& claims.num_txs.range.start == base
    &&& claims.num_txs.range.end == base + W
    &&& claims.num_txs.bytes@ == le32(declared)
    &&& claims.tx_table_entries.range.start == base + entries_window_start(proof.tx_index@)
    &&& claims.tx_table_entries.range.end == base + entries_window_end(proof.tx_index@)
    &&& claims.tx_table_entries.bytes@ == entries_window_bytes(proof.tx_index@, prev, cur)
    &&& claims.tx_payload is Some <==> prev < cur
    &&& claims.tx_payload is Some ==> {
        &&& claims.tx_payload->0.range.start == base + 4 + 4 * declared + prev
        &&& claims.tx_payload->0.range.end == base + 4 + 4 * declared + cur
        &&& claims.tx_payload->0.bytes@ == tx.payload
    }
}

impl TxProofClaims {
    /// Is the proof accepted, once the dispersal scheme has said of each
    /// claim whether the opening that came with it supports it? It is
    /// accepted if every claim has an opening that supports it. For the
    /// bytes of the transaction `tx_payload_holds` is `None` if the proof
    /// came without an opening of them.
    pub fn verdict(
        &self,
        num_txs_holds: bool,
        tx_table_entries_hold: bool,
        tx_payload_holds: Option<bool>,
    ) -> (accepted: bool)
        ensures
            accepted == (num_txs_holds && tx_table_entries_hold && match (
                self.tx_payload,
                tx_payload_holds,
            ) {
                (Some(_), Some(holds)) => holds,
                (None, None) => true,
                _ => false,
            }),
    {
        if !num_txs_holds || !tx_table_entries_hold {
            return false;
        }
        match (&self.tx_payload, tx_payload_holds) {
            (Some(_), Some(holds)) => holds,
            (None, None) => true,
            _ => false,
        }
    }
}

impl TxProofWindows {
    /// The transaction at `index` of `payload` and what a proof for it must
    /// open. `None` if `common` tells of another number of bytes than
    /// `payload` has, or if there is no transaction at `index`. The ranges
    /// to open lie inside the namespace payloads.
    pub fn new(index: &Index, payload: &Payload, common: &VidCommon) -> (found: Option<
        (Transaction, TxProofWindows),
    >)
        ensures
            found is Some <==> payload@.ns_payloads.len() == common@ && valid_index(
                payload@,
                index@,
            ),
            found is Some ==> found->Some_0.0@ == tx_at(payload@, index@),
            found is Some ==> windows_at(found->Some_0.1, payload@, index@),
            found is Some ==> found->Some_0.1.within(payload@.ns_payloads.len() as int),
    {
        proof {
            index.lemma_position_bounds();
        }
        let payload_byte_len = payload.byte_len();
        if payload_byte_len.is_consistent(common).is_err() {
            return None;
        }
        if !payload.ns_table().in_bounds(index.ns()) {
            return None;
        }
        let ns_range = payload.ns_table().ns_range(index.ns(), &payload_byte_len);
        let ns_payload = payload.read_ns_payload(&ns_range);
        if !ns_payload.in_bounds(index.tx()) {
            return None;
        }
        let n = ns_payload.num_txs();
        let i = index.tx().position();
        let byte_len = ns_payload.byte_len();
        assert(4 + 4 * n <= byte_len && i < n && W == 4);

        // the number of transactions that the namespace declares
        let payload_num_txs = ns_payload.read_num_txs();
        let (start, end) = ns_range.block_range(0, W);
        let num_txs_range = ByteRange { start, end };

        // the offsets around this transaction
        let payload_tx_table_entries = ns_payload.read_tx_table_entries(index.tx());
        let entries_start: usize = if i == 0 {
            W
        } else {
            W * i
        };
        let (start, end) = ns_range.block_range(entries_start, W * (i + 2));
        let tx_table_entries_range = ByteRange { start, end };

        // the bytes of this transaction
        let (tx_start, tx_end) = ns_payload.tx_range(index.tx());
        let (start, end) = ns_range.block_range(tx_start, tx_end);
        let tx_payload_range = ByteRange { start, end };

        let ns_id = payload.ns_table().read_ns_id_unchecked(index.ns());
        let tx = ns_payload.export_tx(&ns_id, index.tx()).unwrap();
        Some(
            (
                tx,
                TxProofWindows {
                    tx_index: *index.tx(),
                    payload_num_txs,
                    num_txs_range,
                    payload_tx_table_entries,
                    tx_table_entries_range,
                    tx_payload_range,
                },
            ),
        )
    }
}

impl<P> TxProof<P> {
    /// The proof for the transaction that `windows` was made for, with the
    /// openings of the three ranges. A transaction without bytes has no
    /// opening of its bytes.
    pub fn new(
        windows: &TxProofWindows,
        payload_proof_num_txs: P,
        payload_proof_tx_table_entries: P,
        payload_proof_tx: Option<P>,
    ) -> (proof: TxProof<P>)
        ensures
            proof.tx_index == windows.tx_index,
            proof.payload_num_txs == windows.payload_num_txs,
            proof.payload_proof_num_txs == payload_proof_num_txs,
            proof.payload_tx_table_entries == windows.payload_tx_table_entries,
            proof.payload_proof_tx_table_entries == payload_proof_tx_table_entries,
            proof.payload_proof_tx == payload_proof_tx,
    {
        TxProof {
            tx_index: windows.tx_index,
            payload_num_txs: windows.payload_num_txs,
            payload_proof_num_txs,
            payload_tx_table_entries: windows.payload_tx_table_entries,
            payload_proof_tx_table_entries,
            payload_proof_tx,
        }
    }

    /// What this proof claims of the namespace payloads, if it is a proof
    /// that `tx` stands in a block with the table `ns_table` whose dispersal
    /// has the common data `common`. `None` if it cannot be such a proof:
    /// then it is to be rejected whatever its openings hold.
    pub fn claims(&self, ns_table: &NsTable, tx: &Transaction, common: &VidCommon) -> (claims:
        Option<TxProofClaims>)
        ensures
            claims is Some <==> can_claim(*self, ns_table@, tx@, common@),
            claims is Some ==> claims_of(claims->0, *self, ns_table@, tx@, common@),
    {
        if common.payload_byte_len() > usize::MAX as u64 {
            return None;
        }
        let total = PayloadByteLen::from_vid_common(common);
        let ns_index = match ns_table.find_ns_id(&tx.namespace()) {
            Some(ns_index) => ns_index,
            None => {
                return None;
            },
        };
        let ns_range = ns_table.ns_range(&ns_index, &total);
        let ns_len = ns_range.byte_len();

        // the table of transactions must fit the namespace and hold the transaction
        let declared: usize = self.payload_num_txs as usize;
        if ns_len < W || num_txs_of(self.payload_num_txs, ns_len) != declared {
            return None;
        }
        let i = self.tx_index.position();
        if i >= declared {
            return None;
        }
        assert(W == 4 && 4 + 4 * declared <= ns_len);
        let table_len: usize = W + W * declared;

        // the offsets must be in order and inside the namespace
        let prev: usize = self.payload_tx_table_entries.prev as usize;
        let cur: usize = self.payload_tx_table_entries.cur as usize;
        if prev > cur || cur > ns_len - table_len || (i == 0 && prev != 0) {
            return None;
        }
        if tx.payload().len() != cur - prev {
            return None;
        }
        if self.payload_proof_tx.is_some() != (prev < cur) {
            return None;
        }
        let (start, end) = ns_range.block_range(0, W);
        let mut num_txs_bytes: Vec<u8> = Vec::new();
        push_u32(&mut num_txs_bytes, self.payload_num_txs);
        let num_txs = Claim { range: ByteRange { start, end }, bytes: num_txs_bytes };

        let entries_start: usize = if i == 0 {
            W
        } else {
            W * i
        };
        let (start, end) = ns_range.block_range(entries_start, W * (i + 2));
        let mut entries_bytes: Vec<u8> = Vec::new();
        if i != 0 {
            push_u32(&mut entries_bytes, self.payload_tx_table_entries.prev);
        }
        push_u32(&mut entries_bytes, self.payload_tx_table_entries.cur);
        let tx_table_entries = Claim { range: ByteRange { start, end }, bytes: entries_bytes };

        let tx_payload = if prev < cur {
            let (start, end) = ns_range.block_range(table_len + prev, table_len + cur);
            let mut bytes: Vec<u8> = Vec::new();
            push_bytes(&mut bytes, tx.payload());
            Some(Claim { range: ByteRange { start, end }, bytes })
        } else {
            None
        };
        Some(TxProofClaims { num_txs, tx_table_entries, tx_payload })
    }
}

} // verus!
