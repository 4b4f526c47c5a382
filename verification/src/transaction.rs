//! Namespaces and the transactions that belong to them.

use vstd::prelude::*;

verus! {

/// Identifier of a namespace: eight opaque bytes, compared for equality only.
#[derive(Clone, Copy, Debug, PartialEq, Eq, Hash, Structural)]
pub struct NamespaceId(u64);

impl View for NamespaceId {
    type V = u64;

    closed spec fn view(&self) -> u64 {
        self.0
    }
}

impl NamespaceId {
    /// The namespace with the number `id`.
    pub fn new(id: u64) -> (ns: NamespaceId)
        ensures
            ns@ == id,
    {
        NamespaceId(id)
    }

    /// The number of this namespace.
    pub fn value(&self) -> (id: u64)
        ensures
            id == self@,
    {
        self.0
    }
}

/// What a transaction is to this codec: the number of its namespace and its
/// opaque bytes.
pub ghost struct TxView {
    pub namespace: u64,
    pub payload: Seq<u8>,
}

/// A transaction: an opaque payload addressed to one namespace.
#[derive(Clone, Debug, PartialEq, Eq, Hash)]
pub struct Transaction {
    namespace: NamespaceId,
    payload: Vec<u8>,
}

impl View for Transaction {
    type V = TxView;

    closed spec fn view(&self) -> TxView {
        TxView { namespace: self.namespace@, payload: self.payload@ }
    }
}

impl Transaction {
    /// The transaction with payload `payload` in namespace `namespace`.
    pub fn new(namespace: NamespaceId, payload: Vec<u8>) -> (tx: Transaction)
        ensures
            tx@ == (TxView { namespace: namespace@, payload: payload@ }),
    {
        Transaction { namespace, payload }
    }

    /// The namespace that this transaction is addressed to.
    pub fn namespace(&self) -> (ns: NamespaceId)
        ensures
            ns@ == self@.namespace,
    {
        self.namespace
    }

    /// The bytes of this transaction.
    pub fn payload(&self) -> (bytes: &[u8])
        ensures
            bytes@ == self@.payload,
    {
        self.payload.as_slice()
    }

    /// Gives up the transaction and keeps its bytes.
    pub fn into_payload(self) -> (bytes: Vec<u8>)
        ensures
            bytes@ == self@.payload,
    {
        self.payload
    }
}

/// The views of a sequence of transactions, in order.
pub open spec fn tx_views(txs: Seq<Transaction>) -> Seq<TxView> {
    txs.map_values(|tx: Transaction| tx@)
}

} // verus!
