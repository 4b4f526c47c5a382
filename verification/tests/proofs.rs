use block_payload::iter::Index;
use block_payload::ns_payload::{TxIndex, TxTableEntries};
use block_payload::ns_table::{NsIndex, NsTable};
use block_payload::payload::Payload;
use block_payload::transaction::{NamespaceId, Transaction};
use block_payload::tx_proof::{ByteRange, Claim, TxProof, TxProofWindows};
use block_payload::vid::VidCommon;

// A stand-in for a dispersal scheme: the commitment is the bytes themselves,
// and the opening of a range is a copy of the bytes there.
fn open(committed: &[u8], range: &ByteRange) -> Vec<u8> {
    committed[range.start..range.end].to_vec()
}

fn opening_holds(committed: &[u8], claim: &Claim, opening: &Vec<u8>) -> bool {
    claim.range.start <= claim.range.end
        && claim.range.end <= committed.len()
        && opening == &claim.bytes
        && committed[claim.range.start..claim.range.end] == claim.bytes[..]
}

fn prove(
    payload: &Payload,
    table: &NsTable,
    index: &Index,
) -> Option<(Transaction, TxProof<Vec<u8>>)> {
    let (tx, windows) = payload.transaction_with_proof(table, index)?;
    let bytes = payload.encode();
    let tx_opening = if windows.tx_payload_range.is_empty() {
        None
    } else {
        Some(open(&bytes, &windows.tx_payload_range))
    };
    let proof = TxProof::new(
        &windows,
        open(&bytes, &windows.num_txs_range),
        open(&bytes, &windows.tx_table_entries_range),
        tx_opening,
    );
    Some((tx, proof))
}

fn verify(proof: &TxProof<Vec<u8>>, table: &NsTable, tx: &Transaction, committed: &[u8]) -> bool {
    let common = VidCommon::new(committed.len() as u64);
    let Some(claims) = proof.claims(table, tx, &common) else {
        return false;
    };
    let num_txs_holds = opening_holds(committed, &claims.num_txs, &proof.payload_proof_num_txs);
    let entries_hold =
        opening_holds(committed, &claims.tx_table_entries, &proof.payload_proof_tx_table_entries);
    let tx_holds = match (&claims.tx_payload, &proof.payload_proof_tx) {
        (Some(claim), Some(opening)) => Some(opening_holds(committed, claim, opening)),
        _ => None,
    };
    claims.verdict(num_txs_holds, entries_hold, tx_holds)
}

fn sample_block() -> (Payload, NsTable) {
    let txs = vec![
        Transaction::new(NamespaceId::new(9), b"a".to_vec()),
        Transaction::new(NamespaceId::new(3), b"bb".to_vec()),
        Transaction::new(NamespaceId::new(9), b"ccc".to_vec()),
    ];
    Payload::from_transactions(&txs, 1_000_000).unwrap()
}

#[test]
fn windows_of_a_transaction() {
    let (payload, table) = sample_block();
    // namespace 9 lies at 0..16: count, offsets 1 and 4, "accc"
    let index = Index::new(NsIndex::new(0), TxIndex::new(1));
    let (tx, windows) = payload.transaction_with_proof(&table, &index).unwrap();
    assert_eq!(tx, Transaction::new(NamespaceId::new(9), b"ccc".to_vec()));
    assert_eq!(windows.tx_index, TxIndex::new(1));
    assert_eq!(windows.payload_num_txs, 2);
    assert_eq!(windows.num_txs_range, ByteRange { start: 0, end: 4 });
    assert_eq!(windows.payload_tx_table_entries, TxTableEntries { prev: 1, cur: 4 });
    assert_eq!(windows.tx_table_entries_range, ByteRange { start: 4, end: 12 });
    assert_eq!(windows.tx_payload_range, ByteRange { start: 13, end: 16 });

    // namespace 3 lies at 16..26: count, offset 2, "bb"
    let index = Index::new(NsIndex::new(1), TxIndex::new(0));
    let (tx, windows) = payload.transaction_with_proof(&table, &index).unwrap();
    assert_eq!(tx, Transaction::new(NamespaceId::new(3), b"bb".to_vec()));
    assert_eq!(windows.payload_num_txs, 1);
    assert_eq!(windows.num_txs_range, ByteRange { start: 16, end: 20 });
    assert_eq!(windows.payload_tx_table_entries, TxTableEntries { prev: 0, cur: 2 });
    assert_eq!(windows.tx_table_entries_range, ByteRange { start: 20, end: 24 });
    assert_eq!(windows.tx_payload_range, ByteRange { start: 24, end: 26 });
    assert!(!windows.tx_payload_range.is_empty());
    assert!(ByteRange { start: 5, end: 5 }.is_empty());
}

#[test]
fn no_windows_without_a_transaction_or_with_another_length() {
    let (payload, table) = sample_block();
    let missing_tx = Index::new(NsIndex::new(0), TxIndex::new(2));
    let missing_ns = Index::new(NsIndex::new(2), TxIndex::new(0));
    assert_eq!(payload.transaction_with_proof(&table, &missing_tx), None);
    assert_eq!(payload.transaction_with_proof(&table, &missing_ns), None);

    let index = Index::new(NsIndex::new(0), TxIndex::new(1));
    let len = payload.byte_len().as_usize() as u64;
    assert!(TxProofWindows::new(&index, &payload, &VidCommon::new(len)).is_some());
    assert_eq!(TxProofWindows::new(&index, &payload, &VidCommon::new(len + 1)), None);
    assert_eq!(TxProofWindows::new(&index, &payload, &VidCommon::new(0)), None);
    assert_eq!(TxProofWindows::new(&missing_tx, &payload, &VidCommon::new(len)), None);
}

#[test]
fn claims_of_a_proof() {
    let (payload, table) = sample_block();
    let index = Index::new(NsIndex::new(0), TxIndex::new(1));
    let (tx, proof) = prove(&payload, &table, &index).unwrap();
    let common = VidCommon::new(payload.byte_len().as_usize() as u64);
    let claims = proof.claims(&table, &tx, &common).unwrap();
    assert_eq!(claims.num_txs.range, ByteRange { start: 0, end: 4 });
    assert_eq!(claims.num_txs.bytes, vec![2u8, 0, 0, 0]);
    assert_eq!(claims.tx_table_entries.range, ByteRange { start: 4, end: 12 });
    assert_eq!(claims.tx_table_entries.bytes, vec![1u8, 0, 0, 0, 4, 0, 0, 0]);
    let tx_claim = claims.tx_payload.unwrap();
    assert_eq!(tx_claim.range, ByteRange { start: 13, end: 16 });
    assert_eq!(tx_claim.bytes, b"ccc".to_vec());

    // the first transaction of a namespace has one offset
    let index = Index::new(NsIndex::new(1), TxIndex::new(0));
    let (tx, proof) = prove(&payload, &table, &index).unwrap();
    let claims = proof.claims(&table, &tx, &common).unwrap();
    assert_eq!(claims.num_txs.range, ByteRange { start: 16, end: 20 });
    assert_eq!(claims.tx_table_entries.range, ByteRange { start: 20, end: 24 });
    assert_eq!(claims.tx_table_entries.bytes, vec![2u8, 0, 0, 0]);
    assert_eq!(claims.tx_payload.unwrap().range, ByteRange { start: 24, end: 26 });
}

#[test]
fn proof_is_accepted_and_tampered_proof_is_rejected() {
    let (payload, table) = sample_block();
    let committed = payload.encode();
    let index = Index::new(NsIndex::new(0), TxIndex::new(1));
    let (tx, proof) = prove(&payload, &table, &index).unwrap();
    assert!(verify(&proof, &table, &tx, &committed));

    // flip one byte of an offset
    let mut tampered = proof.clone();
    tampered.payload_tx_table_entries.cur ^= 1;
    assert!(!verify(&tampered, &table, &tx, &committed));
    let mut tampered = proof.clone();
    tampered.payload_tx_table_entries.prev ^= 1;
    assert!(!verify(&tampered, &table, &tx, &committed));
    // another count
    let mut tampered = proof.clone();
    tampered.payload_num_txs = 3;
    assert!(!verify(&tampered, &table, &tx, &committed));
    // another index
    let mut tampered = proof.clone();
    tampered.tx_index = TxIndex::new(0);
    assert!(!verify(&tampered, &table, &tx, &committed));
    // an opening of other bytes
    let mut tampered = proof.clone();
    tampered.payload_proof_tx = Some(b"ccd".to_vec());
    assert!(!verify(&tampered, &table, &tx, &committed));
    let mut tampered = proof.clone();
    tampered.payload_proof_tx = None;
    assert!(!verify(&tampered, &table, &tx, &committed));
    // another transaction
    let other = Transaction::new(NamespaceId::new(9), b"ccd".to_vec());
    assert!(!verify(&proof, &table, &other, &committed));
    let other = Transaction::new(NamespaceId::new(3), b"ccc".to_vec());
    assert!(!verify(&proof, &table, &other, &committed));
    let other = Transaction::new(NamespaceId::new(4), b"ccc".to_vec());
    assert!(!verify(&proof, &table, &other, &committed));
    // other dispersed bytes
    let mut other_bytes = committed.clone();
    other_bytes[14] ^= 0x40;
    assert!(!verify(&proof, &table, &tx, &other_bytes));
    // fewer dispersed bytes than the namespace needs
    assert!(!verify(&proof, &table, &tx, &committed[..15]));
}

#[test]
fn every_transaction_of_a_built_block_has_a_proof_that_is_accepted() {
    let mut txs = Vec::new();
    for i in 0..30u64 {
        txs.push(Transaction::new(NamespaceId::new(i % 4), vec![i as u8; (i as usize * 7) % 11]));
    }
    let (payload, table) = Payload::from_transactions(&txs, 1_000_000).unwrap();
    let committed = payload.encode();
    let all = payload.enumerate(&table);
    assert_eq!(all.len(), 30);
    for (index, expected) in &all {
        let (tx, proof) = prove(&payload, &table, index).unwrap();
        assert_eq!(&tx, expected);
        assert_eq!(proof.payload_proof_tx.is_none(), tx.payload().is_empty());
        assert!(verify(&proof, &table, &tx, &committed));
    }
}

#[test]
fn proof_that_breaks_the_layout_is_rejected() {
    // count 2, offsets 3 and 1: the second transaction ends before it starts
    let mut ns = Vec::new();
    for x in [2u32, 3, 1] {
        ns.extend_from_slice(&x.to_le_bytes());
    }
    ns.extend_from_slice(b"abcd");
    let mut table_bytes = 1u32.to_le_bytes().to_vec();
    table_bytes.extend_from_slice(&5u64.to_le_bytes());
    table_bytes.extend_from_slice(&(ns.len() as u32).to_le_bytes());
    let table = NsTable::from_bytes(&table_bytes);
    let payload = Payload::from_bytes(&ns, &table);

    let first = Index::new(NsIndex::new(0), TxIndex::new(0));
    let (tx, proof) = prove(&payload, &table, &first).unwrap();
    assert_eq!(tx.payload(), b"abc");
    assert!(verify(&proof, &table, &tx, &ns));

    let second = Index::new(NsIndex::new(0), TxIndex::new(1));
    let (tx, proof) = prove(&payload, &table, &second).unwrap();
    assert_eq!(tx.payload(), b"");
    assert!(!verify(&proof, &table, &tx, &ns));
    let common = VidCommon::new(ns.len() as u64);
    assert_eq!(proof.claims(&table, &tx, &common), None);
}

#[test]
fn proof_is_checked_in_the_first_namespace_of_its_id() {
    // two entries with one id: proofs for the second are rejected
    let mut ns = Vec::new();
    for x in [1u32, 1] {
        ns.extend_from_slice(&x.to_le_bytes());
    }
    ns.push(b'a');
    let mut bytes = ns.clone();
    for x in [1u32, 1] {
        bytes.extend_from_slice(&x.to_le_bytes());
    }
    bytes.push(b'b');
    let mut table_bytes = 2u32.to_le_bytes().to_vec();
    for end in [9u32, 18] {
        table_bytes.extend_from_slice(&5u64.to_le_bytes());
        table_bytes.extend_from_slice(&end.to_le_bytes());
    }
    let table = NsTable::from_bytes(&table_bytes);
    let payload = Payload::from_bytes(&bytes, &table);
    let index = Index::new(NsIndex::new(0), TxIndex::new(0));
    let (tx, proof) = prove(&payload, &table, &index).unwrap();
    assert_eq!(tx.payload(), b"a");
    assert!(verify(&proof, &table, &tx, &bytes));
    let index = Index::new(NsIndex::new(1), TxIndex::new(0));
    let (tx, proof) = prove(&payload, &table, &index).unwrap();
    assert_eq!(tx.payload(), b"b");
    assert!(!verify(&proof, &table, &tx, &bytes));
}

#[test]
fn verdict_needs_every_claim_to_hold() {
    let (payload, table) = sample_block();
    let common = VidCommon::new(payload.byte_len().as_usize() as u64);
    let index = Index::new(NsIndex::new(0), TxIndex::new(1));
    let (tx, proof) = prove(&payload, &table, &index).unwrap();
    let claims = proof.claims(&table, &tx, &common).unwrap();
    assert!(claims.tx_payload.is_some());
    assert!(claims.verdict(true, true, Some(true)));
    assert!(!claims.verdict(false, true, Some(true)));
    assert!(!claims.verdict(true, false, Some(true)));
    assert!(!claims.verdict(true, true, Some(false)));
    assert!(!claims.verdict(true, true, None));

    // a transaction without bytes has no claim about its bytes
    let txs = vec![Transaction::new(NamespaceId::new(1), Vec::new())];
    let (payload, table) = Payload::from_transactions(&txs, 1_000).unwrap();
    let common = VidCommon::new(payload.byte_len().as_usize() as u64);
    let index = Index::new(NsIndex::new(0), TxIndex::new(0));
    let (tx, proof) = prove(&payload, &table, &index).unwrap();
    assert_eq!(proof.payload_proof_tx, None);
    let claims = proof.claims(&table, &tx, &common).unwrap();
    assert_eq!(claims.tx_payload, None);
    assert!(claims.verdict(true, true, None));
    assert!(!claims.verdict(true, true, Some(true)));
    let mut with_opening = proof.clone();
    with_opening.payload_proof_tx = Some(Vec::new());
    assert_eq!(with_opening.claims(&table, &tx, &common), None);
}
