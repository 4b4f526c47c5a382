use block_payload::iter::Index;
use block_payload::ns_payload::{NsPayloadBuilder, TxIndex};
use block_payload::ns_table::{NsIndex, NsTable, NsTableBuilder};
use block_payload::payload::{Error, Payload};
use block_payload::transaction::{NamespaceId, Transaction};

fn tx(ns: u64, payload: &[u8]) -> Transaction {
    Transaction::new(NamespaceId::new(ns), payload.to_vec())
}

fn le32(x: u32) -> Vec<u8> {
    x.to_le_bytes().to_vec()
}

fn table_of(entries: &[(u64, u32)]) -> Vec<u8> {
    let mut bytes = le32(entries.len() as u32);
    for (id, end) in entries {
        bytes.extend_from_slice(&id.to_le_bytes());
        bytes.extend_from_slice(&end.to_le_bytes());
    }
    bytes
}

#[test]
fn empty_input_gives_empty_block() {
    let txs: Vec<Transaction> = Vec::new();
    let (payload, table) = Payload::from_transactions(&txs, 1_000_000).unwrap();
    assert_eq!(table.encode(), vec![0u8, 0, 0, 0]);
    assert_eq!(payload.encode(), Vec::<u8>::new());
    assert_eq!(payload.byte_len().as_usize(), 0);
    assert_eq!(payload.ns_table(), &table);
    assert_eq!(payload.len(&table), 0);
    assert_eq!(payload.transactions(&table), Vec::<Transaction>::new());
}

#[test]
fn empty_is_the_block_of_no_transactions() {
    let (payload, table) = Payload::empty();
    let (built, built_table) = Payload::from_transactions(&Vec::new(), 1_000_000).unwrap();
    assert_eq!(payload, built);
    assert_eq!(table, built_table);
    assert_eq!(Payload::genesis(), payload);
    assert_eq!(payload.txn_count(), 0);
}

#[test]
fn single_transaction_block_layout() {
    let txs = vec![tx(7, b"hello")];
    let (payload, table) = Payload::from_transactions(&txs, 1_000_000).unwrap();
    assert_eq!(table.encode(), table_of(&[(7, 13)]));
    let mut expected = le32(1);
    expected.extend(le32(5));
    expected.extend_from_slice(b"hello");
    assert_eq!(expected.len(), 13);
    assert_eq!(payload.encode(), expected);
    assert_eq!(payload.transactions(&table), txs);
    assert_eq!(payload.len(&table), 1);
    assert_eq!(payload.txn_count(), 1);
}

#[test]
fn interleaved_namespaces_are_grouped_in_order_of_first_appearance() {
    let txs = vec![tx(9, b"a"), tx(3, b"bb"), tx(9, b"ccc")];
    let (payload, table) = Payload::from_transactions(&txs, 1_000_000).unwrap();

    // namespace 9: two transactions, offsets 1 and 4
    let mut ns9 = le32(2);
    ns9.extend(le32(1));
    ns9.extend(le32(4));
    ns9.extend_from_slice(b"accc");
    // namespace 3: one transaction, offset 2
    let mut ns3 = le32(1);
    ns3.extend(le32(2));
    ns3.extend_from_slice(b"bb");
    let end_9 = ns9.len() as u32;
    let end_3 = end_9 + ns3.len() as u32;
    assert_eq!(end_9, 16);
    assert_eq!(end_3, 26);

    assert_eq!(table.encode(), table_of(&[(9, end_9), (3, end_3)]));
    let mut expected = ns9.clone();
    expected.extend(ns3.clone());
    assert_eq!(payload.encode(), expected);

    assert_eq!(
        payload.transactions(&table),
        vec![tx(9, b"a"), tx(9, b"ccc"), tx(3, b"bb")]
    );
    assert_eq!(payload.ns_payload(&NsIndex::new(0)).as_bytes_slice(), &ns9[..]);
    assert_eq!(payload.ns_payload(&NsIndex::new(1)).as_bytes_slice(), &ns3[..]);
    assert_eq!(
        payload.ns_payload(&NsIndex::new(0)).export_all_txs(&NamespaceId::new(9)),
        vec![tx(9, b"a"), tx(9, b"ccc")]
    );
    assert_eq!(
        payload.transaction(&Index::new(NsIndex::new(0), TxIndex::new(1))),
        Some(tx(9, b"ccc"))
    );
    assert_eq!(
        payload.transaction(&Index::new(NsIndex::new(1), TxIndex::new(0))),
        Some(tx(3, b"bb"))
    );
    assert_eq!(payload.transaction(&Index::new(NsIndex::new(1), TxIndex::new(1))), None);
    assert_eq!(payload.transaction(&Index::new(NsIndex::new(2), TxIndex::new(0))), None);
}

#[test]
fn overflowing_transaction_and_all_behind_it_are_dropped() {
    let first = vec![b'x'; 100];
    let second = vec![b'y'; 100];
    let txs = vec![tx(1, &first), tx(1, &second)];
    // the first costs 4 (table count) + 12 (entry) + 4 (count) + 4 (offset) + 100 = 124
    let (payload, table) = Payload::from_transactions(&txs, 200).unwrap();
    assert_eq!(payload.transactions(&table), vec![tx(1, &first)]);
    assert_eq!(payload.byte_len().as_usize() + table.encode().len(), 124);

    // exactly enough for the first
    let (payload, table) = Payload::from_transactions(&txs, 124).unwrap();
    assert_eq!(payload.transactions(&table), vec![tx(1, &first)]);
    // one byte short of the first
    let (payload, table) = Payload::from_transactions(&txs, 123).unwrap();
    assert_eq!(payload.transactions(&table), Vec::<Transaction>::new());
    assert_eq!(table.encode(), vec![0u8, 0, 0, 0]);
    // exactly enough for both: the second costs 4 + 100 more
    let (payload, table) = Payload::from_transactions(&txs, 228).unwrap();
    assert_eq!(payload.transactions(&table), txs);
    assert_eq!(payload.byte_len().as_usize() + table.encode().len(), 228);
    let (payload, table) = Payload::from_transactions(&txs, 227).unwrap();
    assert_eq!(payload.transactions(&table), vec![tx(1, &first)]);
}

#[test]
fn packing_stops_at_the_first_transaction_that_does_not_fit() {
    // the second does not fit; the third would, but is dropped too
    let big = vec![0u8; 1000];
    let txs = vec![tx(1, b"a"), tx(2, &big), tx(1, b"b")];
    let (payload, table) = Payload::from_transactions(&txs, 100).unwrap();
    assert_eq!(payload.transactions(&table), vec![tx(1, b"a")]);
    assert_eq!(table.encode(), table_of(&[(1, 9)]));
}

#[test]
fn maximum_below_fixed_overhead_gives_empty_block() {
    let txs = vec![tx(1, b"a")];
    for max in 0..4u64 {
        let (payload, table) = Payload::from_transactions(&txs, max).unwrap();
        assert_eq!(payload, Payload::empty().0);
        assert_eq!(table.encode(), vec![0u8, 0, 0, 0]);
    }
}

#[test]
fn single_transaction_beyond_the_budget_is_dropped() {
    let txs = vec![tx(1, &[7u8; 50])];
    let (payload, table) = Payload::from_transactions(&txs, 60).unwrap();
    assert_eq!(payload.encode(), Vec::<u8>::new());
    assert_eq!(table.encode(), vec![0u8, 0, 0, 0]);
}

#[test]
fn empty_transactions_are_kept() {
    let txs = vec![tx(5, b""), tx(5, b""), tx(6, b"")];
    let (payload, table) = Payload::from_transactions(&txs, 1_000_000).unwrap();
    assert_eq!(payload.transactions(&table), txs);
    assert_eq!(payload.len(&table), 3);
    // namespace 5: count 2, offsets 0 and 0; namespace 6: count 1, offset 0
    assert_eq!(table.encode(), table_of(&[(5, 12), (6, 20)]));
}

#[test]
fn built_block_is_within_the_byte_budget() {
    let mut txs = Vec::new();
    for i in 0..40u64 {
        txs.push(tx(i % 7, &vec![i as u8; (i as usize * 13) % 50]));
    }
    for max in [4u64, 5, 19, 20, 23, 24, 25, 100, 333, 1000, 5000] {
        let (payload, table) = Payload::from_transactions(&txs, max).unwrap();
        let size = payload.byte_len().as_usize() + table.encode().len();
        assert!(size as u64 <= max, "size {size} above maximum {max}");
        // what was packed is a prefix of the input, grouped
        let packed = payload.transactions(&table);
        let mut grouped: Vec<Transaction> = Vec::new();
        let prefix = &txs[..packed.len()];
        let mut seen: Vec<NamespaceId> = Vec::new();
        for t in prefix {
            if !seen.contains(&t.namespace()) {
                seen.push(t.namespace());
            }
        }
        for ns in &seen {
            for t in prefix {
                if t.namespace() == *ns {
                    grouped.push(t.clone());
                }
            }
        }
        assert_eq!(packed, grouped);
    }
}

#[test]
fn building_twice_gives_the_same_block() {
    let txs = vec![tx(9, b"a"), tx(3, b"bb"), tx(9, b"ccc"), tx(1, b"dddd")];
    let first = Payload::from_transactions(&txs, 70).unwrap();
    let second = Payload::from_transactions(&txs, 70).unwrap();
    assert_eq!(first, second);
    assert_eq!(first.0.encode(), second.0.encode());
}

#[test]
fn round_trip_through_bytes() {
    let txs = vec![tx(9, b"a"), tx(3, b"bb"), tx(9, b"ccc"), tx(u64::MAX, b"dddd")];
    let (payload, table) = Payload::from_transactions(&txs, 1_000_000).unwrap();
    let again = Payload::from_bytes(&payload.encode(), &NsTable::from_bytes(&table.encode()));
    assert_eq!(again, payload);
    assert_eq!(
        again.transactions(&table),
        vec![tx(9, b"a"), tx(9, b"ccc"), tx(3, b"bb"), tx(u64::MAX, b"dddd")]
    );
}

#[test]
fn enumerate_and_iter_give_addresses_in_order() {
    let txs = vec![tx(9, b"a"), tx(3, b"bb"), tx(9, b"ccc")];
    let (payload, table) = Payload::from_transactions(&txs, 1_000_000).unwrap();
    let expected = vec![
        Index::new(NsIndex::new(0), TxIndex::new(0)),
        Index::new(NsIndex::new(0), TxIndex::new(1)),
        Index::new(NsIndex::new(1), TxIndex::new(0)),
    ];
    let all = payload.enumerate(&table);
    assert_eq!(all.len(), 3);
    for (k, (index, t)) in all.iter().enumerate() {
        assert_eq!(*index, expected[k]);
        assert_eq!(payload.transaction(index).as_ref(), Some(t));
    }
    let mut iter = payload.iter(&table);
    let mut walked = Vec::new();
    while let Some(index) = iter.next() {
        walked.push(index);
    }
    assert_eq!(walked, expected);
    assert_eq!(iter.next(), None);
    assert_eq!(expected[1].ns().position(), 0);
    assert_eq!(expected[1].tx().position(), 1);
}

#[test]
fn ns_payload_builder_writes_count_offsets_and_bodies() {
    let mut builder = NsPayloadBuilder::new();
    builder.append_tx(tx(1, b"ab"));
    builder.append_payload(b"");
    builder.append_tx(tx(1, b"cde"));
    let bytes = builder.into_bytes();
    let mut expected = le32(3);
    expected.extend(le32(2));
    expected.extend(le32(2));
    expected.extend(le32(5));
    expected.extend_from_slice(b"abcde");
    assert_eq!(bytes, expected);
    assert_eq!(NsPayloadBuilder::default().into_bytes(), le32(0));
    assert_eq!(NsPayloadBuilder::fixed_overhead_byte_len(), 4);
    assert_eq!(NsPayloadBuilder::tx_overhead_byte_len(), 4);
}

#[test]
fn ns_table_builder_writes_count_and_entries() {
    let mut builder = NsTableBuilder::new();
    builder.append_entry(NamespaceId::new(0x0102030405060708), 0x0a0b0c0d);
    builder.append_entry(NamespaceId::new(2), 0x0a0b0c0e);
    let table = builder.into_ns_table();
    assert_eq!(
        table.encode(),
        vec![
            2, 0, 0, 0, 8, 7, 6, 5, 4, 3, 2, 1, 0x0d, 0x0c, 0x0b, 0x0a, 2, 0, 0, 0, 0, 0, 0, 0,
            0x0e, 0x0c, 0x0b, 0x0a
        ]
    );
    assert_eq!(NsTableBuilder::new().into_ns_table().encode(), vec![0u8, 0, 0, 0]);
    assert_eq!(NsTableBuilder::fixed_overhead_byte_len(), 4);
    assert_eq!(NsTableBuilder::ns_overhead_byte_len(), 12);
}

#[test]
fn maximum_that_cannot_be_addressed_is_the_only_error() {
    let txs = vec![tx(1, b"a")];
    let built = Payload::from_transactions(&txs, u64::MAX);
    if (usize::MAX as u64) < u64::MAX {
        assert_eq!(built, Err(Error::BlockBuilding));
    } else {
        let (payload, table) = built.unwrap();
        assert_eq!(payload.transactions(&table), txs);
    }
    assert!(Payload::from_transactions(&txs, usize::MAX as u64).is_ok());
    assert!(Payload::from_transactions(&txs, u32::MAX as u64 + 1).is_ok());
}
