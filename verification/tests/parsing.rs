use block_payload::iter::Index;
use block_payload::ns_payload::{num_txs_of, tx_payload_range, NsPayload, TxIndex, TxTableEntries};
use block_payload::ns_table::{NsIndex, NsPayloadRange, NsTable};
use block_payload::payload::{Payload, PayloadByteLen};
use block_payload::transaction::{NamespaceId, Transaction};
use block_payload::uint_bytes::{
    push_u32, push_u64, read_u32, read_u64, NS_ENTRY_BYTE_LEN, NS_ID_BYTE_LEN, W,
};
use block_payload::vid::VidCommon;

fn table_bytes(declared: u32, entries: &[(u64, u32)]) -> Vec<u8> {
    let mut bytes = declared.to_le_bytes().to_vec();
    for (id, end) in entries {
        bytes.extend_from_slice(&id.to_le_bytes());
        bytes.extend_from_slice(&end.to_le_bytes());
    }
    bytes
}

fn byte_len(len: usize) -> PayloadByteLen {
    PayloadByteLen::from_vid_common(&VidCommon::new(len as u64))
}

fn next_random(state: &mut u64) -> u64 {
    *state = state.wrapping_mul(6364136223846793005).wrapping_add(1442695040888963407);
    *state >> 33
}

#[test]
fn widths_of_the_wire_format() {
    assert_eq!(W, 4);
    assert_eq!(NS_ID_BYTE_LEN, 8);
    assert_eq!(NS_ENTRY_BYTE_LEN, 12);
}

#[test]
fn integers_are_little_endian() {
    let mut out = vec![0xaau8];
    push_u32(&mut out, 0x01020304);
    push_u64(&mut out, 0x1112131415161718);
    assert_eq!(
        out,
        vec![0xaa, 4, 3, 2, 1, 0x18, 0x17, 0x16, 0x15, 0x14, 0x13, 0x12, 0x11]
    );
    assert_eq!(read_u32(&out, 1), 0x01020304);
    assert_eq!(read_u64(&out, 5), 0x1112131415161718);
    assert_eq!(read_u32(&[0xff, 0xff, 0xff, 0xff], 0), u32::MAX);
    assert_eq!(read_u64(&[0xff; 8], 0), u64::MAX);
}

#[test]
fn malformed_block_yields_no_transactions() {
    let table = NsTable::from_bytes(&table_bytes(1, &[(0, 10_000)]));
    let payload = Payload::from_bytes(&[0xff, 0xff, 0xff, 0xff], &table);
    assert_eq!(table.len(), 1);
    assert_eq!(payload.ns_payload(&NsIndex::new(0)).as_bytes_slice(), &[0xffu8; 4][..]);
    assert_eq!(payload.ns_payload(&NsIndex::new(0)).read_num_txs(), u32::MAX);
    assert_eq!(payload.ns_payload(&NsIndex::new(0)).num_txs(), 0);
    assert_eq!(payload.transactions(&table), Vec::<Transaction>::new());
    assert_eq!(payload.len(&table), 0);
    assert_eq!(payload.iter(&table).next(), None);
    assert_eq!(payload.transaction(&Index::new(NsIndex::new(0), TxIndex::new(0))), None);
}

#[test]
fn tx_count_is_clamped_to_what_the_bytes_hold() {
    assert_eq!(num_txs_of(5, 0), 0);
    assert_eq!(num_txs_of(5, 3), 0);
    assert_eq!(num_txs_of(5, 4), 0);
    assert_eq!(num_txs_of(5, 7), 0);
    assert_eq!(num_txs_of(5, 8), 1);
    assert_eq!(num_txs_of(5, 23), 4);
    assert_eq!(num_txs_of(5, 24), 5);
    assert_eq!(num_txs_of(5, 1000), 5);
    assert_eq!(num_txs_of(u32::MAX, 1000), 249);
    assert_eq!(NsPayload::from_bytes_slice(&[1, 0, 0]).num_txs(), 0);
    assert_eq!(NsPayload::from_bytes_slice(&[1, 0, 0]).read_num_txs(), 0);
    assert_eq!(NsPayload::from_bytes_slice(&[]).num_txs(), 0);
}

#[test]
fn tx_range_is_clamped_and_ordered() {
    // a payload of 20 bytes that declares 2 transactions: table 12 bytes, 8 behind it
    let range = |prev: u32, cur: u32| tx_payload_range(2, &TxTableEntries { prev, cur }, 20);
    assert_eq!(range(0, 3), (12, 15));
    assert_eq!(range(3, 8), (15, 20));
    // an offset behind the end is moved to the end
    assert_eq!(range(3, 9), (15, 20));
    assert_eq!(range(3, u32::MAX), (15, 20));
    assert_eq!(range(100, 200), (20, 20));
    // an end before the start is moved to the start
    assert_eq!(range(5, 3), (17, 17));
    assert_eq!(range(100, 3), (20, 20));
    // a declared count that the bytes cannot hold is cut down: 20 bytes hold 4 offsets
    assert_eq!(tx_payload_range(1000, &TxTableEntries { prev: 0, cur: 3 }, 20), (20, 20));
    assert_eq!(tx_payload_range(3, &TxTableEntries { prev: 1, cur: 3 }, 20), (17, 19));
}

#[test]
fn export_tx_reads_clamped_offsets() {
    // count 3, offsets 2, 1000, 1; bodies "abcdef"
    let mut bytes = Vec::new();
    for x in [3u32, 2, 1000, 1] {
        bytes.extend_from_slice(&x.to_le_bytes());
    }
    bytes.extend_from_slice(b"abcdef");
    let ns = NsPayload::from_bytes_slice(&bytes);
    let id = NamespaceId::new(4);
    assert_eq!(ns.byte_len(), 22);
    assert_eq!(ns.num_txs(), 3);
    assert_eq!(ns.iter(), vec![TxIndex::new(0), TxIndex::new(1), TxIndex::new(2)]);
    assert!(ns.in_bounds(&TxIndex::new(2)));
    assert!(!ns.in_bounds(&TxIndex::new(3)));
    assert_eq!(ns.export_tx(&id, &TxIndex::new(0)).unwrap().payload(), b"ab");
    assert_eq!(ns.export_tx(&id, &TxIndex::new(1)).unwrap().payload(), b"cdef");
    assert_eq!(ns.export_tx(&id, &TxIndex::new(2)).unwrap().payload(), b"");
    assert_eq!(ns.export_tx(&id, &TxIndex::new(3)), None);
    assert_eq!(ns.tx_range(&TxIndex::new(1)), (18, 22));
    assert_eq!(ns.tx_range(&TxIndex::new(2)), (22, 22));
    assert_eq!(
        ns.read_tx_table_entries(&TxIndex::new(1)),
        TxTableEntries { prev: 2, cur: 1000 }
    );
    assert_eq!(ns.read_tx_table_entries(&TxIndex::new(0)), TxTableEntries { prev: 0, cur: 2 });
    assert_eq!(ns.export_all_txs(&id).len(), 3);
    assert_eq!(ns.export_tx(&id, &TxIndex::new(1)).unwrap().namespace(), id);
}

#[test]
fn ns_count_is_clamped_to_what_the_table_holds() {
    assert_eq!(NsTable::from_bytes(&[]).len(), 0);
    assert_eq!(NsTable::from_bytes(&[1, 0, 0]).len(), 0);
    assert_eq!(NsTable::from_bytes(&[1, 0, 0]).read_num_nss(), 0);
    assert_eq!(NsTable::from_bytes(&[9, 0, 0, 0]).len(), 0);
    assert_eq!(NsTable::from_bytes(&[9, 0, 0, 0]).read_num_nss(), 9);
    let mut bytes = table_bytes(9, &[(1, 1), (2, 2)]);
    assert_eq!(NsTable::from_bytes(&bytes).len(), 2);
    bytes.extend_from_slice(&[0u8; 11]);
    assert_eq!(NsTable::from_bytes(&bytes).len(), 2);
    bytes.push(0);
    assert_eq!(NsTable::from_bytes(&bytes).len(), 3);
    assert_eq!(NsTable::from_bytes(&table_bytes(1, &[(1, 1), (2, 2)])).len(), 1);
}

#[test]
fn ns_range_is_clamped_and_ordered() {
    let table = NsTable::from_bytes(&table_bytes(4, &[(1, 10), (2, 5), (3, 1000), (4, 20)]));
    assert_eq!(table.ns_range(&NsIndex::new(0), &byte_len(100)).as_block_range(), (0, 10));
    // an end before the start is moved to the start
    assert_eq!(table.ns_range(&NsIndex::new(1), &byte_len(100)).as_block_range(), (10, 10));
    // an offset behind the end is moved to the end
    assert_eq!(table.ns_range(&NsIndex::new(2), &byte_len(100)).as_block_range(), (5, 100));
    assert_eq!(table.ns_range(&NsIndex::new(3), &byte_len(100)).as_block_range(), (100, 100));
    assert_eq!(table.ns_range(&NsIndex::new(0), &byte_len(7)).as_block_range(), (0, 7));
    assert_eq!(table.ns_range(&NsIndex::new(1), &byte_len(7)).as_block_range(), (7, 7));
    assert_eq!(table.ns_range(&NsIndex::new(2), &byte_len(0)).as_block_range(), (0, 0));
    assert_eq!(table.ns_range(&NsIndex::new(2), &byte_len(100)).byte_len(), 95);
    assert_eq!(
        table.ns_range(&NsIndex::new(2), &byte_len(100)).block_range(3, 9),
        (8, 14)
    );
    assert_eq!(NsPayloadRange::new(3, 8).as_block_range(), (3, 8));
}

#[test]
fn find_ns_id_returns_the_first_of_duplicates() {
    let table = NsTable::from_bytes(&table_bytes(4, &[(7, 1), (8, 2), (7, 3), (8, 4)]));
    assert_eq!(table.find_ns_id(&NamespaceId::new(7)), Some(NsIndex::new(0)));
    assert_eq!(table.find_ns_id(&NamespaceId::new(8)), Some(NsIndex::new(1)));
    assert_eq!(table.find_ns_id(&NamespaceId::new(9)), None);
    assert_eq!(table.read_ns_id(&NsIndex::new(2)), Some(NamespaceId::new(7)));
    assert_eq!(table.read_ns_id(&NsIndex::new(4)), None);
    assert_eq!(table.read_ns_id_unchecked(&NsIndex::new(3)).value(), 8);
    assert_eq!(table.iter().len(), 4);
    assert_eq!(table.iter()[3], NsIndex::new(3));
    assert!(table.in_bounds(&NsIndex::new(3)));
    assert!(!table.in_bounds(&NsIndex::new(4)));
    // an entry that the count cuts off is not found
    let cut = NsTable::from_bytes(&table_bytes(1, &[(7, 1), (8, 2)]));
    assert_eq!(cut.find_ns_id(&NamespaceId::new(8)), None);
    assert_eq!(cut.as_bytes(), &table_bytes(1, &[(7, 1), (8, 2)])[..]);
}

#[test]
fn payload_byte_len_against_vid_common() {
    let payload = Payload::from_bytes(&[1, 2, 3], &NsTable::from_bytes(&[]));
    assert_eq!(payload.byte_len().as_usize(), 3);
    assert_eq!(payload.byte_len().is_consistent(&VidCommon::new(3)), Ok(()));
    assert_eq!(payload.byte_len().is_consistent(&VidCommon::new(4)), Err(()));
    assert_eq!(payload.byte_len().is_consistent(&VidCommon::new(0)), Err(()));
    assert_eq!(PayloadByteLen::from_vid_common(&VidCommon::new(3)), payload.byte_len());
    assert_eq!(VidCommon::new(17).payload_byte_len(), 17);
}

#[test]
fn read_ns_payload_gives_the_bytes_of_the_range() {
    let payload = Payload::from_bytes(&[10, 11, 12, 13, 14], &NsTable::from_bytes(&[]));
    assert_eq!(
        payload.read_ns_payload(&NsPayloadRange::new(1, 4)).as_bytes_slice(),
        &[11u8, 12, 13][..]
    );
    assert_eq!(payload.read_ns_payload(&NsPayloadRange::new(5, 5)).byte_len(), 0);
}

#[test]
fn overlapping_namespaces_are_all_read() {
    // both entries cover the same bytes: offsets 12 and then 0 and 12 again
    let mut ns = Vec::new();
    for x in [1u32, 4] {
        ns.extend_from_slice(&x.to_le_bytes());
    }
    ns.extend_from_slice(b"wxyz");
    let table = NsTable::from_bytes(&table_bytes(3, &[(1, 12), (2, 0), (3, 12)]));
    let payload = Payload::from_bytes(&ns, &table);
    let txs = payload.transactions(&table);
    assert_eq!(
        txs,
        vec![
            Transaction::new(NamespaceId::new(1), b"wxyz".to_vec()),
            Transaction::new(NamespaceId::new(3), b"wxyz".to_vec())
        ]
    );
    assert_eq!(payload.len(&table), 2);
}

#[test]
fn any_bytes_are_a_block_and_every_transaction_lies_inside() {
    let mut state = 0x1234_5678_9abc_def0u64;
    for round in 0..300 {
        let payload_len = (next_random(&mut state) % 80) as usize;
        let table_len = (next_random(&mut state) % 60) as usize;
        let mut bytes: Vec<u8> = (0..payload_len).map(|_| next_random(&mut state) as u8).collect();
        let mut table: Vec<u8> = (0..table_len).map(|_| next_random(&mut state) as u8).collect();
        // small numbers in places, so that counts and offsets are often in range
        if round % 2 == 0 {
            for chunk in table.chunks_mut(4) {
                if chunk.len() == 4 && next_random(&mut state) % 2 == 0 {
                    chunk[1] = 0;
                    chunk[2] = 0;
                    chunk[3] = 0;
                    chunk[0] %= 90;
                }
            }
            for chunk in bytes.chunks_mut(4) {
                if chunk.len() == 4 && next_random(&mut state) % 2 == 0 {
                    chunk[1] = 0;
                    chunk[2] = 0;
                    chunk[3] = 0;
                    chunk[0] %= 20;
                }
            }
        }
        let ns_table = NsTable::from_bytes(&table);
        let payload = Payload::from_bytes(&bytes, &ns_table);
        let all = payload.enumerate(&ns_table);
        assert_eq!(all.len(), payload.len(&ns_table));
        assert!(all.len() <= (table_len / 12 + 1) * (payload_len / 4 + 1));
        for (index, tx) in &all {
            let (same, windows) = payload.transaction_with_proof(&ns_table, index).unwrap();
            assert_eq!(&same, tx);
            let range = windows.tx_payload_range;
            assert!(range.start <= range.end && range.end <= bytes.len());
            assert_eq!(tx.payload(), &bytes[range.start..range.end]);
            assert_eq!(Some(tx.namespace()), ns_table.read_ns_id(index.ns()));
        }
    }
}
