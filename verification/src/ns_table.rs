//! The namespace table: which namespaces a block holds and where the payload
//! of each ends.
//!
//! The table starts with the number of entries in `W` bytes. Each entry is a
//! namespace id in `NS_ID_BYTE_LEN` bytes and, in `W` bytes, the offset at
//! which the payload of that namespace ends among the namespace payloads. A
//! payload starts where the one before it ends; the first starts at offset
//! zero.
//!
//! Every byte string is a namespace table. A count that the bytes cannot hold
//! is cut down to what they can hold, offsets are clamped to the length of
//! the namespace payloads, and of several entries with one namespace id the
//! first is the one that is found.

use vstd::prelude::*;
use vstd::math::min;
use crate::encoding::{ns_entries_bytes, ns_table_bytes, NsEntry};
use crate::ns_payload::{clamped_end, clamped_start};
use crate::payload::PayloadByteLen;
use crate::transaction::NamespaceId;
use crate::uint_bytes::{
    le32_at, le64_at, push_bytes, push_u32, push_u64, read_u32, read_u64, NS_ENTRY_BYTE_LEN,
    NS_ID_BYTE_LEN, W,
};

verus! {

/// The number of entries that the first bytes of `table` declare.
pub open spec fn declared_num_nss(table: Seq<u8>) -> int {
    if table.len() < W {
        0
    } else {
        le32_at(table, 0)
    }
}

/// The number of entries of the namespace table `table`: what it declares,
/// but no more than its bytes hold.
pub open spec fn num_nss(table: Seq<u8>) -> int {
    if table.len() < W {
        0
    } else {
        min(declared_num_nss(table), (table.len() - 4) / 12)
    }
}

/// Where entry `i` starts in the table: behind the count of `W` bytes and
/// `i` entries of `NS_ENTRY_BYTE_LEN` bytes.
pub open spec fn ns_entry_pos(i: int) -> int {
    4 + 12 * i
}

/// The namespace id of entry `i`.
pub open spec fn ns_id_at(table: Seq<u8>, i: int) -> int {
    le64_at(table, ns_entry_pos(i))
}

/// The offset of entry `i`, as the table has it.
pub open spec fn ns_offset_at(table: Seq<u8>, i: int) -> int {
    le32_at(table, ns_entry_pos(i) + NS_ID_BYTE_LEN)
}

/// The offset at which the payload before that of entry `i` ends, as the
/// table has it.
pub open spec fn ns_prev_offset(table: Seq<u8>, i: int) -> int {
    if i <= 0 {
        0
    } else {
        ns_offset_at(table, i - 1)
    }
}

/// Where the payload of entry `i` starts among `total` bytes of namespace
/// payloads.
pub open spec fn ns_start(table: Seq<u8>, i: int, total: int) -> int {
    clamped_start(ns_prev_offset(table, i), total)
}

/// Where the payload of entry `i` ends among `total` bytes of namespace
/// payloads.
pub open spec fn ns_end(table: Seq<u8>, i: int, total: int) -> int {
    clamped_end(ns_prev_offset(table, i), ns_offset_at(table, i), total)
}

/// Position of the first entry from `from` on whose namespace id is `ns`, or
/// the number of entries if there is none.
pub open spec fn first_ns_index_from(table: Seq<u8>, ns: u64, from: int) -> int
    decreases num_nss(table) - from,
{
    if from >= num_nss(table) {
        num_nss(table)
    } else if ns_id_at(table, from) == ns {
        from
    } else {
        first_ns_index_from(table, ns, from + 1)
    }
}

/// Position of the first entry whose namespace id is `ns`, or the number of
/// entries if there is none.
pub open spec fn first_ns_index(table: Seq<u8>, ns: u64) -> int {
    first_ns_index_from(table, ns, 0)
}

/// Whatever the table and the offsets in it, the payload of an entry lies
/// inside the namespace payloads.
pub proof fn lemma_ns_range_in_bounds(table: Seq<u8>, i: int, total: int)
    requires
        0 <= total,
    ensures
        0 <= ns_start(table, i, total) <= ns_end(table, i, total) <= total,
{
    crate::uint_bytes::lemma_le32_at_bounds(table, ns_entry_pos(i) + NS_ID_BYTE_LEN);
    crate::uint_bytes::lemma_le32_at_bounds(table, ns_entry_pos(i - 1) + NS_ID_BYTE_LEN);
}

/// What `first_ns_index_from` finds is the first match and no other.
pub proof fn lemma_first_ns_index_from(table: Seq<u8>, ns: u64, from: int)
    requires
        0 <= from,
    ensures
        from <= first_ns_index_from(table, ns, from) || first_ns_index_from(table, ns, from)
            == num_nss(table),
        first_ns_index_from(table, ns, from) <= num_nss(table) || from > num_nss(table),
        first_ns_index_from(table, ns, from) < num_nss(table) ==> ns_id_at(
            table,
            first_ns_index_from(table, ns, from),
        ) == ns,
        forall|j: int|
            from <= j < first_ns_index_from(table, ns, from) ==> #[trigger] ns_id_at(table, j)
                != ns,
    decreases num_nss(table) - from,
{
    if from < num_nss(table) && ns_id_at(table, from) != ns {
        lemma_first_ns_index_from(table, ns, from + 1);
    }
}

/// Position of an entry in the namespace table.
#[derive(Clone, Copy, Debug, PartialEq, Eq, Hash, Structural)]
pub struct NsIndex(usize);

impl View for NsIndex {
    type V = int;

    closed spec fn view(&self) -> int {
        self.0 as int
    }
}

impl NsIndex {
    /// The index of entry number `position`.
    pub fn new(position: usize) -> (index: NsIndex)
        ensures
            index@ == position,
    {
        NsIndex(position)
    }

    /// The number of the entry.
    pub fn position(&self) -> (position: usize)
        ensures
            position == self@,
    {
        self.0
    }

    /// A position is never negative.
    pub proof fn lemma_position_bounds(self)
        ensures
            0 <= self@ <= usize::MAX,
    {
    }
}

/// The place of one namespace payload among the namespace payloads.
#[derive(Clone, Copy, Debug, PartialEq, Eq, Hash, Structural)]
pub struct NsPayloadRange {
    start: usize,
    end: usize,
}

impl NsPayloadRange {
    /// Where the namespace payload starts.
    pub closed spec fn spec_start(&self) -> int {
        self.start as int
    }

    /// Where the namespace payload ends.
    pub closed spec fn spec_end(&self) -> int {
        self.end as int
    }

    #[verifier::type_invariant]
    spec fn ordered(self) -> bool {
        self.start <= self.end
    }

    /// The range from `start` to `end`.
    pub fn new(start: usize, end: usize) -> (range: NsPayloadRange)
        requires
            start <= end,
        ensures
            range.spec_start() == start,
            range.spec_end() == end,
    {
        NsPayloadRange { start, end }
    }

    /// Where the namespace payload starts and ends among the namespace
    /// payloads.
    pub fn as_block_range(&self) -> (range: (usize, usize))
        ensures
            range.0 == self.spec_start(),
            range.1 == self.spec_end(),
            range.0 <= range.1,
    {
        proof {
            use_type_invariant(self);
        }
        (self.start, self.end)
    }

    /// Number of bytes of the namespace payload.
    pub fn byte_len(&self) -> (len: usize)
        ensures
            len == self.spec_end() - self.spec_start(),
    {
        proof {
            use_type_invariant(self);
        }
        self.end - self.start
    }

    /// Where the bytes from `start` to `end` of the namespace payload lie
    /// among the namespace payloads.
    pub fn block_range(&self, start: usize, end: usize) -> (range: (usize, usize))
        requires
            start <= end <= self.spec_end() - self.spec_start(),
        ensures
            range.0 == self.spec_start() + start,
            range.1 == self.spec_start() + end,
    {
        proof {
            use_type_invariant(self);
        }
        (self.start + start, self.start + end)
    }
}

/// A namespace table, as bytes.
#[derive(Clone, Debug, PartialEq, Eq, Hash)]
pub struct NsTable {
    bytes: Vec<u8>,
}

impl View for NsTable {
    type V = Seq<u8>;

    closed spec fn view(&self) -> Seq<u8> {
        self.bytes@
    }
}

impl NsTable {
    /// The namespace table that consists of `bytes`.
    pub fn from_bytes(bytes: &[u8]) -> (table: NsTable)
        ensures
            table@ == bytes@,
    {
        let mut copy: Vec<u8> = Vec::new();
        push_bytes(&mut copy, bytes);
        NsTable { bytes: copy }
    }

    /// The bytes of this table.
    pub fn as_bytes(&self) -> (bytes: &[u8])
        ensures
            bytes@ == self@,
    {
        self.bytes.as_slice()
    }

    /// A copy of the bytes of this table.
    pub fn encode(&self) -> (bytes: Vec<u8>)
        ensures
            bytes@ == self@,
    {
        let mut copy: Vec<u8> = Vec::new();
        push_bytes(&mut copy, self.bytes.as_slice());
        copy
    }

    /// The number of entries that the first bytes declare, unclamped.
    pub fn read_num_nss(&self) -> (declared: u32)
        ensures
            declared == declared_num_nss(self@),
    {
        if self.bytes.len() < W {
            0
        } else {
            read_u32(self.bytes.as_slice(), 0)
        }
    }

    /// The number of entries of this table.
    pub fn len(&self) -> (n: usize)
        ensures
            n == num_nss(self@),
            n > 0 ==> ns_entry_pos(n as int) <= self@.len(),
    {
        if self.bytes.len() < W {
            0
        } else {
            let room: usize = (self.bytes.len() - W) / NS_ENTRY_BYTE_LEN;
            let declared: usize = self.read_num_nss() as usize;
            if declared < room {
                declared
            } else {
                room
            }
        }
    }

    /// The positions of the entries of this table, in order.
    pub fn iter(&self) -> (indices: Vec<NsIndex>)
        ensures
            indices@.len() == num_nss(self@),
            forall|k: int| 0 <= k < indices@.len() ==> (#[trigger] indices@[k])@ == k,
    {
        let n = self.len();
        let mut indices: Vec<NsIndex> = Vec::new();
        let mut i: usize = 0;
        while i < n
            invariant
                i <= n,
                indices@.len() == i,
                forall|k: int| 0 <= k < indices@.len() ==> (#[trigger] indices@[k])@ == k,
            decreases n - i,
        {
            indices.push(NsIndex::new(i));
            i += 1;
        }
        indices
    }

    /// Is there an entry number `index`?
    pub fn in_bounds(&self, index: &NsIndex) -> (b: bool)
        ensures
            b == (index@ < num_nss(self@)),
    {
        index.position() < self.len()
    }

    /// The namespace id of entry `index`, which must exist.
    pub fn read_ns_id_unchecked(&self, index: &NsIndex) -> (ns_id: NamespaceId)
        requires
            index@ < num_nss(self@),
        ensures
            ns_id@ == ns_id_at(self@, index@),
    {
        let n = self.len();
        let i = index.position();
        let byte_len = self.bytes.len();
        assert(NS_ENTRY_BYTE_LEN == 12 && 4 + 12 * (i + 1) <= byte_len);
        let at: usize = W + NS_ENTRY_BYTE_LEN * i;
        NamespaceId::new(read_u64(self.bytes.as_slice(), at))
    }

    /// The namespace id of entry `index`; `None` if there is no such entry.
    pub fn read_ns_id(&self, index: &NsIndex) -> (ns_id: Option<NamespaceId>)
        ensures
            ns_id is Some <==> index@ < num_nss(self@),
            ns_id is Some ==> ns_id->0@ == ns_id_at(self@, index@),
    {
        if !self.in_bounds(index) {
            None
        } else {
            Some(self.read_ns_id_unchecked(index))
        }
    }

    /// The first entry whose namespace id is `ns_id`; `None` if there is
    /// none.
    pub fn find_ns_id(&self, ns_id: &NamespaceId) -> (found: Option<NsIndex>)
        ensures
            found is Some <==> first_ns_index(self@, ns_id@) < num_nss(self@),
            found is Some ==> found->0@ == first_ns_index(self@, ns_id@),
            found is Some ==> ns_id_at(self@, found->0@) == ns_id@,
            forall|j: int|
                0 <= j < first_ns_index(self@, ns_id@) ==> #[trigger] ns_id_at(self@, j)
                    != ns_id@,
    {
        let n = self.len();
        let mut i: usize = 0;
        while i < n
            invariant
                n == num_nss(self@),
                i <= n,
                first_ns_index_from(self@, ns_id@, i as int) == first_ns_index(self@, ns_id@),
            decreases n - i,
        {
            let index = NsIndex::new(i);
            if self.read_ns_id_unchecked(&index).value() == ns_id.value() {
                proof {
                    lemma_first_ns_index_from(self@, ns_id@, 0);
                }
                return Some(index);
            }
            i += 1;
        }
        proof {
            lemma_first_ns_index_from(self@, ns_id@, 0);
        }
        None
    }

    /// The offset of entry `index`, which must exist, as the table has it.
    fn read_ns_offset(&self, index: &NsIndex) -> (offset: u32)
        requires
            index@ < num_nss(self@),
        ensures
            offset == ns_offset_at(self@, index@),
    {
        let n = self.len();
        let i = index.position();
        let byte_len = self.bytes.len();
        assert(NS_ENTRY_BYTE_LEN == 12 && 4 + 12 * (i + 1) <= byte_len);
        let at: usize = W + NS_ENTRY_BYTE_LEN * i + NS_ID_BYTE_LEN;
        read_u32(self.bytes.as_slice(), at)
    }

    /// Where the payload of entry `index`, which must exist, lies among
    /// namespace payloads of `payload_byte_len` bytes. The range is inside
    /// those bytes whatever the table holds.
    pub fn ns_range(&self, index: &NsIndex, payload_byte_len: &PayloadByteLen) -> (range:
        NsPayloadRange)
        requires
            index@ < num_nss(self@),
        ensures
            range.spec_start() == ns_start(self@, index@, payload_byte_len@),
            range.spec_end() == ns_end(self@, index@, payload_byte_len@),
            0 <= range.spec_start() <= range.spec_end() <= payload_byte_len@,
    {
        let total: usize = payload_byte_len.as_usize();
        let i = index.position();
        let prev: usize = if i == 0 {
            0
        } else {
            self.read_ns_offset(&NsIndex::new(i - 1)) as usize
        };
        let cur: usize = self.read_ns_offset(index) as usize;
        let start: usize = if prev < total {
            prev
        } else {
            total
        };
        let cur_clamped: usize = if cur < total {
            cur
        } else {
            total
        };
        let end: usize = if cur_clamped < start {
            start
        } else {
            cur_clamped
        };
        NsPayloadRange::new(start, end)
    }
}

/// Collects the entries of a namespace table and writes the table out.
pub struct NsTableBuilder {
    entries: Vec<u8>,
    listed: Ghost<Seq<NsEntry>>,
}

impl View for NsTableBuilder {
    type V = Seq<NsEntry>;

    /// The entries collected so far, in order.
    closed spec fn view(&self) -> Seq<NsEntry> {
        self.listed@
    }
}

impl NsTableBuilder {
    /// The bytes held are those of the entries collected so far.
    pub closed spec fn wf(&self) -> bool {
        self.entries@ == ns_entries_bytes(self.listed@)
    }

    /// A builder that has collected nothing.
    pub fn new() -> (builder: NsTableBuilder)
        ensures
            builder.wf(),
            builder@ == Seq::<NsEntry>::empty(),
    {
        NsTableBuilder { entries: Vec::new(), listed: Ghost(Seq::empty()) }
    }

    /// Adds an entry for namespace `ns_id` whose payload ends at `offset`,
    /// which must fit in `W` bytes.
    pub fn append_entry(&mut self, ns_id: NamespaceId, offset: usize)
        requires
            old(self).wf(),
            offset <= u32::MAX,
        ensures
            final(self).wf(),
            final(self)@ == old(self)@.push(NsEntry { namespace: ns_id@, end: offset as int }),
    {
        let ghost before = self.listed@;
        let ghost after = before.push(NsEntry { namespace: ns_id@, end: offset as int });
        assert(after.drop_last() == before);
        push_u64(&mut self.entries, ns_id.value());
        push_u32(&mut self.entries, offset as u32);
        self.listed = Ghost(after);
    }

    /// The table of the entries collected. Their number must fit in `W`
    /// bytes.
    pub fn into_ns_table(self) -> (table: NsTable)
        requires
            self.wf(),
            self@.len() <= u32::MAX,
        ensures
            table@ == ns_table_bytes(self@),
    {
        proof {
            crate::encoding::lemma_ns_entries_len(self.listed@);
        }
        let num_entries: usize = self.entries.len() / NS_ENTRY_BYTE_LEN;
        let mut bytes: Vec<u8> = Vec::new();
        push_u32(&mut bytes, num_entries as u32);
        push_bytes(&mut bytes, self.entries.as_slice());
        NsTable { bytes }
    }

    /// Number of bytes that a table takes before its first entry.
    pub fn fixed_overhead_byte_len() -> (len: usize)
        ensures
            len == W,
    {
        W
    }

    /// Number of bytes that each entry takes.
    pub fn ns_overhead_byte_len() -> (len: usize)
        ensures
            len == NS_ENTRY_BYTE_LEN,
    {
        NS_ENTRY_BYTE_LEN
    }
}

} // verus!
