//! One namespace payload: a table of transaction offsets, then the bytes of
//! the transactions.
//!
//! The payload starts with the number of transactions in `W` bytes. Then
//! comes, for each transaction, the offset at which it ends, in `W` bytes
//! each, counted from the first byte behind the table. A transaction starts
//! where the one before it ends; the first starts at offset zero.
//!
//! Every byte string is a namespace payload. A count that the bytes cannot
//! hold is cut down to what they can hold, and an offset that points behind
//! the end or before the start of its transaction is moved to the nearest
//! place that makes sense.

use vstd::prelude::*;
use vstd::math::{max, min};
use crate::encoding::{ns_payload_encoding, total_len, tx_bodies, tx_table_entries};
use crate::transaction::{NamespaceId, Transaction, TxView};
use crate::uint_bytes::{le32_at, push_bytes, push_u32, read_u32, W};

verus! {

/// The number of transactions of a namespace payload of `byte_len` bytes
/// that declares `declared` of them: no more than there is room for offsets.
pub open spec fn clamped_num_txs(declared: int, byte_len: int) -> int {
    if byte_len < W {
        0
    } else {
        min(declared, (byte_len - 4) / 4)
    }
}

/// Number of bytes of the transaction table of such a payload.
pub open spec fn table_len_of(declared: int, byte_len: int) -> int {
    4 + 4 * clamped_num_txs(declared, byte_len)
}

/// Number of bytes behind the transaction table of such a payload.
pub open spec fn bodies_len_of(declared: int, byte_len: int) -> int {
    if byte_len < W {
        0
    } else {
        byte_len - table_len_of(declared, byte_len)
    }
}

/// Where a transaction starts behind the table, if the offset before it is
/// `prev` and `remaining` bytes stand behind the table.
pub open spec fn clamped_start(prev: int, remaining: int) -> int {
    min(prev, remaining)
}

/// Where a transaction ends behind the table, if the offsets around it are
/// `prev` and `cur` and `remaining` bytes stand behind the table.
pub open spec fn clamped_end(prev: int, cur: int, remaining: int) -> int {
    max(min(cur, remaining), clamped_start(prev, remaining))
}

/// The number of transactions that the first bytes of `buf` declare.
pub open spec fn declared_num_txs(buf: Seq<u8>) -> int {
    if buf.len() < W {
        0
    } else {
        le32_at(buf, 0)
    }
}

/// The number of transactions of the namespace payload `buf`.
pub open spec fn num_txs(buf: Seq<u8>) -> int {
    clamped_num_txs(declared_num_txs(buf), buf.len() as int)
}

/// Number of bytes of the transaction table of `buf`.
pub open spec fn tx_table_len(buf: Seq<u8>) -> int {
    table_len_of(declared_num_txs(buf), buf.len() as int)
}

/// Number of bytes of `buf` behind its transaction table.
pub open spec fn tx_bodies_len(buf: Seq<u8>) -> int {
    bodies_len_of(declared_num_txs(buf), buf.len() as int)
}

/// The offset at which transaction `k - 1` ends and transaction `k` starts,
/// as the table of `buf` has it.
pub open spec fn tx_offset(buf: Seq<u8>, k: int) -> int {
    if k <= 0 {
        0
    } else {
        le32_at(buf, 4 * k)
    }
}

/// Where transaction `i` starts in `buf`.
pub open spec fn tx_start(buf: Seq<u8>, i: int) -> int {
    tx_table_len(buf) + clamped_start(tx_offset(buf, i), tx_bodies_len(buf))
}

/// Where transaction `i` ends in `buf`.
pub open spec fn tx_end(buf: Seq<u8>, i: int) -> int {
    tx_table_len(buf) + clamped_end(tx_offset(buf, i), tx_offset(buf, i + 1), tx_bodies_len(buf))
}

/// The bytes of transaction `i` of `buf`.
pub open spec fn tx_payload(buf: Seq<u8>, i: int) -> Seq<u8> {
    buf.subrange(tx_start(buf, i), tx_end(buf, i))
}

/// The transactions of the namespace payload `buf`, as transactions of
/// namespace `namespace`.
pub open spec fn ns_payload_txs(buf: Seq<u8>, namespace: u64) -> Seq<TxView> {
    Seq::new(
        num_txs(buf) as nat,
        |i: int| TxView { namespace: namespace, payload: tx_payload(buf, i) },
    )
}

/// The table of a namespace payload never reaches behind its end, and the
/// bytes behind the table are what is left.
pub proof fn lemma_table_fits(declared: int, byte_len: int)
    requires
        0 <= declared,
        0 <= byte_len,
    ensures
        0 <= clamped_num_txs(declared, byte_len) <= declared,
        0 <= bodies_len_of(declared, byte_len),
        byte_len >= W ==> table_len_of(declared, byte_len) + bodies_len_of(declared, byte_len)
            == byte_len,
        byte_len < W ==> clamped_num_txs(declared, byte_len) == 0,
{
}

/// Every transaction of every byte string lies inside the byte string,
/// behind the transaction table.
pub proof fn lemma_tx_range_in_bounds(buf: Seq<u8>, i: int)
    requires
        0 <= i < num_txs(buf),
    ensures
        tx_table_len(buf) <= tx_start(buf, i) <= tx_end(buf, i) <= buf.len(),
{
    lemma_table_fits(declared_num_txs(buf), buf.len() as int);
}

/// Position of a transaction inside its namespace.
#[derive(Clone, Copy, Debug, PartialEq, Eq, Hash, Structural)]
pub struct TxIndex(usize);

impl View for TxIndex {
    type V = int;

    closed spec fn view(&self) -> int {
        self.0 as int
    }
}

impl TxIndex {
    /// The index of transaction number `position`.
    pub fn new(position: usize) -> (index: TxIndex)
        ensures
            index@ == position,
    {
        TxIndex(position)
    }

    /// The number of the transaction.
    pub fn position(&self) -> (position: usize)
        ensures
            position == self@,
    {
        self.0
    }

    /// A position is never negative.
    pub proof fn lemma_position_bounds(self)
        ensures
            0 <= self@ <= usize::MAX,
    {
    }
}

/// The two offsets of the transaction table between which a transaction
/// lies, as they are read, before any clamping.
#[derive(Clone, Copy, Debug, PartialEq, Eq, Hash, Structural)]
pub struct TxTableEntries {
    /// The offset at which the transaction before this one ends; zero for
    /// the first transaction.
    pub prev: u32,
    /// The offset at which this transaction ends.
    pub cur: u32,
}

/// The bytes of one namespace, borrowed from a block.
#[derive(Clone, Copy, Debug)]
pub struct NsPayload<'a> {
    bytes: &'a [u8],
}

impl<'a> View for NsPayload<'a> {
    type V = Seq<u8>;

    closed spec fn view(&self) -> Seq<u8> {
        self.bytes@
    }
}

impl<'a> NsPayload<'a> {
    /// The namespace payload that consists of `bytes`.
    pub fn from_bytes_slice(bytes: &'a [u8]) -> (ns_payload: NsPayload<'a>)
        ensures
            ns_payload@ == bytes@,
    {
        NsPayload { bytes }
    }

    /// The bytes of this namespace payload.
    pub fn as_bytes_slice(&self) -> (bytes: &'a [u8])
        ensures
            bytes@ == self@,
    {
        self.bytes
    }

    /// Number of bytes of this namespace payload.
    pub fn byte_len(&self) -> (len: usize)
        ensures
            len == self@.len(),
    {
        self.bytes.len()
    }

    /// The number of transactions that the first bytes declare, unclamped.
    pub fn read_num_txs(&self) -> (declared: u32)
        ensures
            declared == declared_num_txs(self@),
    {
        if self.bytes.len() < W {
            0
        } else {
            read_u32(self.bytes, 0)
        }
    }

    /// The number of transactions of this namespace payload.
    pub fn num_txs(&self) -> (n: usize)
        ensures
            n == num_txs(self@),
            4 + 4 * n <= self@.len() || n == 0,
    {
        num_txs_of(self.read_num_txs(), self.bytes.len())
    }

    /// Is there a transaction number `index`?
    pub fn in_bounds(&self, index: &TxIndex) -> (b: bool)
        ensures
            b == (index@ < num_txs(self@)),
    {
        index.position() < self.num_txs()
    }

    /// The positions of the transactions of this namespace payload, in
    /// order.
    pub fn iter(&self) -> (indices: Vec<TxIndex>)
        ensures
            indices@.len() == num_txs(self@),
            forall|k: int| 0 <= k < indices@.len() ==> (#[trigger] indices@[k])@ == k,
    {
        let n = self.num_txs();
        let mut indices: Vec<TxIndex> = Vec::new();
        let mut i: usize = 0;
        while i < n
            invariant
                i <= n,
                indices@.len() == i,
                forall|k: int| 0 <= k < indices@.len() ==> (#[trigger] indices@[k])@ == k,
            decreases n - i,
        {
            indices.push(TxIndex::new(i));
            i += 1;
        }
        indices
    }

    /// The offsets between which transaction `index` lies, as the table has
    /// them.
    pub fn read_tx_table_entries(&self, index: &TxIndex) -> (entries: TxTableEntries)
        requires
            index@ < num_txs(self@),
        ensures
            entries.prev == tx_offset(self@, index@),
            entries.cur == tx_offset(self@, index@ + 1),
    {
        let i = index.position();
        let n = self.num_txs();
        let byte_len = self.bytes.len();
        assert(W * (i + 2) <= byte_len);
        let prev: u32 = if i == 0 {
            0
        } else {
            read_u32(self.bytes, W * i)
        };
        let cur: u32 = read_u32(self.bytes, W * (i + 1));
        TxTableEntries { prev, cur }
    }

    /// Where transaction `index` starts and ends in this namespace payload.
    pub fn tx_range(&self, index: &TxIndex) -> (range: (usize, usize))
        requires
            index@ < num_txs(self@),
        ensures
            range.0 == tx_start(self@, index@),
            range.1 == tx_end(self@, index@),
            tx_table_len(self@) <= range.0 <= range.1 <= self@.len(),
    {
        let entries = self.read_tx_table_entries(index);
        let range = tx_payload_range(self.read_num_txs(), &entries, self.bytes.len());
        proof {
            lemma_tx_range_in_bounds(self@, index@);
        }
        range
    }

    /// Transaction `index` of this namespace payload, as a transaction of
    /// namespace `ns_id`; `None` if there is no such transaction.
    pub fn export_tx(&self, ns_id: &NamespaceId, index: &TxIndex) -> (tx: Option<Transaction>)
        ensures
            tx is Some <==> index@ < num_txs(self@),
            tx is Some ==> tx->0@ == (TxView {
                namespace: ns_id@,
                payload: tx_payload(self@, index@),
            }),
    {
        if !self.in_bounds(index) {
            return None;
        }
        let (start, end) = self.tx_range(index);
        let mut payload: Vec<u8> = Vec::new();
        push_bytes(&mut payload, vstd::slice::slice_subrange(self.bytes, start, end));
        Some(Transaction::new(*ns_id, payload))
    }

    /// All transactions of this namespace payload, in order, as transactions
    /// of namespace `ns_id`.
    pub fn export_all_txs(&self, ns_id: &NamespaceId) -> (txs: Vec<Transaction>)
        ensures
            crate::transaction::tx_views(txs@) == ns_payload_txs(self@, ns_id@),
    {
        let n = self.num_txs();
        let mut txs: Vec<Transaction> = Vec::new();
        let mut i: usize = 0;
        while i < n
            invariant
                n == num_txs(self@),
                i <= n,
                txs@.len() == i,
                forall|k: int|
                    0 <= k < i ==> (#[trigger] txs@[k])@ == (TxView {
                        namespace: ns_id@,
                        payload: tx_payload(self@, k),
                    }),
            decreases n - i,
        {
            let tx = self.export_tx(ns_id, &TxIndex::new(i));
            txs.push(tx.unwrap());
            i += 1;
        }
        assert(crate::transaction::tx_views(txs@) =~= ns_payload_txs(self@, ns_id@));
        txs
    }
}

/// Collects the transactions of one namespace and writes them out as a
/// namespace payload.
pub struct NsPayloadBuilder {
    tx_table_entries: Vec<u8>,
    tx_bodies: Vec<u8>,
    payloads: Ghost<Seq<Seq<u8>>>,
}

impl View for NsPayloadBuilder {
    type V = Seq<Seq<u8>>;

    /// The payloads of the transactions collected so far, in order.
    closed spec fn view(&self) -> Seq<Seq<u8>> {
        self.payloads@
    }
}

impl NsPayloadBuilder {
    /// The bytes held are the offsets and the bodies of the payloads
    /// collected so far.
    pub closed spec fn wf(&self) -> bool {
        &&& self.tx_table_entries@ == tx_table_entries(self.payloads@)
        &&& self.tx_bodies@ == tx_bodies(self.payloads@)
    }

    /// A builder that has collected nothing.
    pub fn new() -> (builder: NsPayloadBuilder)
        ensures
            builder.wf(),
            builder@ == Seq::<Seq<u8>>::empty(),
    {
        NsPayloadBuilder {
            tx_table_entries: Vec::new(),
            tx_bodies: Vec::new(),
            payloads: Ghost(Seq::empty()),
        }
    }

    /// Adds the payload of `tx` behind those collected so far. The offset at
    /// which it ends must fit in `W` bytes.
    pub fn append_tx(&mut self, tx: Transaction)
        requires
            old(self).wf(),
            total_len(old(self)@) + tx@.payload.len() <= u32::MAX,
        ensures
            final(self).wf(),
            final(self)@ == old(self)@.push(tx@.payload),
    {
        self.append_payload(tx.payload());
    }

    /// Adds `payload` behind the payloads collected so far. The offset at
    /// which it ends must fit in `W` bytes.
    pub fn append_payload(&mut self, payload: &[u8])
        requires
            old(self).wf(),
            total_len(old(self)@) + payload@.len() <= u32::MAX,
        ensures
            final(self).wf(),
            final(self)@ == old(self)@.push(payload@),
    {
        proof {
            crate::encoding::lemma_ns_payload_len(self.payloads@);
        }
        let ghost before = self.payloads@;
        let ghost after = before.push(payload@);
        push_bytes(&mut self.tx_bodies, payload);
        let end: usize = self.tx_bodies.len();
        assert(after.drop_last() == before);
        push_u32(&mut self.tx_table_entries, end as u32);
        self.payloads = Ghost(after);
    }

    /// Appends the namespace payload of the transactions collected to `out`.
    /// Their number must fit in `W` bytes.
    pub fn write_to(&self, out: &mut Vec<u8>)
        requires
            self.wf(),
            self@.len() <= u32::MAX,
        ensures
            final(out)@ == old(out)@ + ns_payload_encoding(self@),
    {
        proof {
            crate::encoding::lemma_ns_payload_len(self.payloads@);
        }
        let num_txs: usize = self.tx_table_entries.len() / W;
        push_u32(out, num_txs as u32);
        push_bytes(out, self.tx_table_entries.as_slice());
        push_bytes(out, self.tx_bodies.as_slice());
        assert(out@ =~= old(out)@ + ns_payload_encoding(self@));
    }

    /// The namespace payload of the transactions collected. Their number
    /// must fit in `W` bytes.
    pub fn into_bytes(self) -> (bytes: Vec<u8>)
        requires
            self.wf(),
            self@.len() <= u32::MAX,
        ensures
            bytes@ == ns_payload_encoding(self@),
    {
        let mut bytes: Vec<u8> = Vec::new();
        self.write_to(&mut bytes);
        bytes
    }

    /// Number of bytes that a namespace payload takes before its first
    /// transaction.
    pub fn fixed_overhead_byte_len() -> (len: usize)
        ensures
            len == W,
    {
        W
    }

    /// Number of bytes that each transaction takes beside its own.
    pub fn tx_overhead_byte_len() -> (len: usize)
        ensures
            len == W,
    {
        W
    }
}

impl Default for NsPayloadBuilder {
    fn default() -> (builder: NsPayloadBuilder)
        ensures
            builder.wf(),
            builder@ == Seq::<Seq<u8>>::empty(),
    {
        NsPayloadBuilder::new()
    }
}

/// The number of transactions of a namespace payload of `byte_len` bytes that
/// declares `declared` of them.
pub fn num_txs_of(declared: u32, byte_len: usize) -> (n: usize)
    ensures
        n == clamped_num_txs(declared as int, byte_len as int),
        4 + 4 * n <= byte_len || n == 0,
{
    if byte_len < W {
        0
    } else {
        let room: usize = (byte_len - W) / W;
        let declared: usize = declared as usize;
        if declared < room {
            declared
        } else {
            room
        }
    }
}

/// Where a transaction starts and ends in a namespace payload of `byte_len`
/// bytes that declares `declared` transactions, if the offsets around the
/// transaction are `entries`.
pub fn tx_payload_range(declared: u32, entries: &TxTableEntries, byte_len: usize) -> (range: (
    usize,
    usize,
))
    ensures
        range.0 == table_len_of(declared as int, byte_len as int) + clamped_start(
            entries.prev as int,
            bodies_len_of(declared as int, byte_len as int),
        ),
        range.1 == table_len_of(declared as int, byte_len as int) + clamped_end(
            entries.prev as int,
            entries.cur as int,
            bodies_len_of(declared as int, byte_len as int),
        ),
        range.0 <= range.1,
        byte_len >= W ==> range.1 <= byte_len,
{
    let n = num_txs_of(declared, byte_len);
    let table_len: usize = W + W * n;
    let remaining: usize = if byte_len < W {
        0
    } else {
        byte_len - table_len
    };
    let prev: usize = entries.prev as usize;
    let cur: usize = entries.cur as usize;
    let start: usize = if prev < remaining {
        prev
    } else {
        remaining
    };
    let cur_clamped: usize = if cur < remaining {
        cur
    } else {
        remaining
    };
    let end: usize = if cur_clamped < start {
        start
    } else {
        cur_clamped
    };
    (table_len + start, table_len + end)
}

} // verus!
