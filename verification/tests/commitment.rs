use block_payload::commitment::{commit, commitment_preimage_bytes};
use block_payload::ns_table::NsTable;
use block_payload::payload::Payload;
use block_payload::transaction::{NamespaceId, Transaction};
use sha2::{Digest, Sha256};

#[test]
fn commitment_of_the_empty_block() {
    let (payload, table) = Payload::from_transactions(&Vec::new(), 1_000_000).unwrap();
    let expected: [u8; 32] = [
        0xb4, 0x4b, 0xec, 0xd2, 0xbc, 0x6a, 0x3a, 0x23, 0x02, 0xbd, 0xf7, 0xb6, 0x47, 0x4a, 0x26,
        0x34, 0xd6, 0xa9, 0x85, 0x29, 0x54, 0x88, 0x40, 0xeb, 0x6f, 0x6a, 0xb4, 0x21, 0x9a, 0x51,
        0x72, 0x00,
    ];
    assert_eq!(payload.builder_commitment(&table), expected);

    // the digest of: length 0, length 4, length 4, no payload, the table, the table again
    let mut hasher = Sha256::new();
    hasher.update(0u64.to_le_bytes());
    hasher.update(4u64.to_le_bytes());
    hasher.update(4u64.to_le_bytes());
    hasher.update([0u8, 0, 0, 0]);
    hasher.update([0u8, 0, 0, 0]);
    let digest: [u8; 32] = hasher.finalize().into();
    assert_eq!(payload.builder_commitment(&table), digest);
}

#[test]
fn commitment_of_a_single_transaction_block() {
    let txs = vec![Transaction::new(NamespaceId::new(7), b"hello".to_vec())];
    let (payload, table) = Payload::from_transactions(&txs, 1_000_000).unwrap();
    let expected: [u8; 32] = [
        0x9f, 0x1b, 0x46, 0x8a, 0x00, 0xf8, 0x6c, 0x00, 0x76, 0xe9, 0x30, 0x93, 0x1a, 0x72, 0xd3,
        0x12, 0xd4, 0x3a, 0x5b, 0x87, 0x10, 0x12, 0x12, 0x5f, 0x2f, 0xbc, 0x23, 0x29, 0x87, 0x51,
        0x97, 0xfe,
    ];
    assert_eq!(payload.builder_commitment(&table), expected);
}

#[test]
fn digest_of_nothing_but_the_lengths() {
    // 24 zero bytes are hashed, not handed back
    let digest = commit(&[], &[], &[]);
    let expected: [u8; 32] = Sha256::digest([0u8; 24]).into();
    assert_eq!(digest, expected);
    assert_ne!(&digest[..24], &[0u8; 24][..]);
}

#[test]
fn preimage_holds_lengths_then_payloads_table_and_metadata() {
    let bytes = commitment_preimage_bytes(&[1, 2, 3], &[4, 5], &[6]);
    assert_eq!(
        bytes,
        vec![
            3, 0, 0, 0, 0, 0, 0, 0, 2, 0, 0, 0, 0, 0, 0, 0, 1, 0, 0, 0, 0, 0, 0, 0, 1, 2, 3, 4, 5,
            6
        ]
    );
}

#[test]
fn commitment_depends_on_the_bytes_alone() {
    let txs = vec![
        Transaction::new(NamespaceId::new(9), b"a".to_vec()),
        Transaction::new(NamespaceId::new(3), b"bb".to_vec()),
    ];
    let (payload, table) = Payload::from_transactions(&txs, 1_000_000).unwrap();
    let copy = Payload::from_bytes(&payload.encode(), &NsTable::from_bytes(&table.encode()));
    assert_eq!(payload.builder_commitment(&table), copy.builder_commitment(&table));
    assert_eq!(
        payload.builder_commitment(&table),
        commit(&payload.encode(), &table.encode(), &table.encode())
    );
}

#[test]
fn commitment_changes_with_every_flipped_bit() {
    let txs = vec![
        Transaction::new(NamespaceId::new(9), b"a".to_vec()),
        Transaction::new(NamespaceId::new(3), b"bb".to_vec()),
    ];
    let (payload, table) = Payload::from_transactions(&txs, 1_000_000).unwrap();
    let unflipped = payload.builder_commitment(&table);
    let bytes = payload.encode();
    for at in 0..bytes.len() {
        for bit in 0..8 {
            let mut flipped = bytes.clone();
            flipped[at] ^= 1 << bit;
            let other = Payload::from_bytes(&flipped, &table);
            assert_ne!(other.builder_commitment(&table), unflipped);
        }
    }
    let table_bytes = table.encode();
    for at in 0..table_bytes.len() {
        for bit in 0..8 {
            let mut flipped = table_bytes.clone();
            flipped[at] ^= 1 << bit;
            let other_table = NsTable::from_bytes(&flipped);
            let other = Payload::from_bytes(&bytes, &other_table);
            assert_ne!(other.builder_commitment(&other_table), unflipped);
        }
    }
}

#[test]
fn moving_a_byte_between_payloads_and_table_changes_the_commitment() {
    // the same bytes in all, split differently
    assert_ne!(commit(&[1, 2], &[3], &[3]), commit(&[1], &[2, 3], &[3]));
    assert_ne!(commit(&[], &[0], &[]), commit(&[0], &[], &[]));
}
