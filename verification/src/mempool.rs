//! Transactions that wait for a block

use std::collections::BTreeMap;

use vstd::bytes::u128_from_le_bytes;
use vstd::prelude::*;
use vstd::slice::slice_subrange;

use crate::networking::message::Inventory;
use crate::primitives::{Transaction, TransactionView, Txid, Wtxid};

verus! {

/// The transactions of a mempool
///
/// Hashes stand for their 32 bytes.
#[verifier::ext_equal]
pub struct MempoolView {
    /// The transactions, by txid
    pub txs: Map<Seq<u8>, TransactionView>,
    /// The txids, by wtxid
    pub wtxids: Map<Seq<u8>, Seq<u8>>,
}

impl MempoolView {
    /// A mempool without transactions
    pub open spec fn empty() -> MempoolView {
        MempoolView { txs: Map::empty(), wtxids: Map::empty() }
    }

    /// There are finitely many transactions, each stands under its own txid, and every wtxid
    /// leads to one.
    pub open spec fn wf(self) -> bool {
        &&& self.txs.dom().finite()
        &&& forall|id: Seq<u8>| #[trigger]
            self.txs.contains_key(id) ==> crate::primitives::txid_of(self.txs[id]) == id
        &&& forall|id: Seq<u8>| #[trigger]
            self.wtxids.contains_key(id) ==> self.txs.contains_key(self.wtxids[id])
    }

    /// The mempool with one more transaction
    pub open spec fn add(self, tx: TransactionView) -> MempoolView {
        MempoolView {
            txs: self.txs.insert(crate::primitives::txid_of(tx), tx),
            wtxids: self.wtxids.insert(crate::primitives::wtxid_of(tx), crate::primitives::txid_of(tx)),
        }
    }

    /// The mempool with more transactions, added one after the other
    pub open spec fn add_all(self, txs: Seq<TransactionView>) -> MempoolView
        decreases txs.len(),
    {
        if txs.len() == 0 {
            self
        } else {
            self.add_all(txs.drop_last()).add(txs.last())
        }
    }

    /// The transaction under a txid
    pub open spec fn by_txid(self, txid: Seq<u8>) -> Option<TransactionView> {
        if self.txs.contains_key(txid) {
            Some(self.txs[txid])
        } else {
            None
        }
    }

    /// The transaction that a wtxid leads to
    pub open spec fn by_wtxid(self, wtxid: Seq<u8>) -> Option<TransactionView> {
        if self.wtxids.contains_key(wtxid) {
            self.by_txid(self.wtxids[wtxid])
        } else {
            None
        }
    }

    /// The transaction that an inventory item asks for
    pub open spec fn lookup(self, item: Inventory) -> Option<TransactionView> {
        match item {
            Inventory::Transaction(txid) => self.by_txid(txid@),
            Inventory::WitnessTransaction(txid) => self.by_txid(txid@),
            Inventory::WTx(wtxid) => self.by_wtxid(wtxid@),
            _ => None,
        }
    }

    /// Whether `listing` holds every transaction of the mempool once, in whatever order
    pub open spec fn lists(self, listing: Seq<TransactionView>) -> bool {
        let ids = listing.map_values(|tx: TransactionView| crate::primitives::txid_of(tx));
        &&& forall|i: int|
            0 <= i < listing.len() ==> self.by_txid(
                crate::primitives::txid_of(#[trigger] listing[i]),
            ) == Some(listing[i])
        &&& ids.no_duplicates()
        &&& ids.to_set() == self.txs.dom()
        &&& listing.len() == self.txs.dom().len()
    }
}

/// A hash as a key: its two halves as numbers
spec fn hash_key(hash: Seq<u8>) -> (u128, u128) {
    (
        vstd::bytes::spec_u128_from_le_bytes(hash.subrange(0, 16)),
        vstd::bytes::spec_u128_from_le_bytes(hash.subrange(16, 32)),
    )
}

proof fn lemma_hash_key_injective(a: Seq<u8>, b: Seq<u8>)
    requires
        a.len() == 32,
        b.len() == 32,
        hash_key(a) == hash_key(b),
    ensures
        a == b,
{
    vstd::bytes::lemma_auto_spec_u128_to_from_le_bytes();
    let (low, high) = hash_key(a);
    assert(a =~= a.subrange(0, 16) + a.subrange(16, 32));
    assert(b =~= b.subrange(0, 16) + b.subrange(16, 32));
    assert(a.subrange(0, 16) == vstd::bytes::spec_u128_to_le_bytes(low));
    assert(a.subrange(16, 32) == vstd::bytes::spec_u128_to_le_bytes(high));
    assert(b.subrange(0, 16) == vstd::bytes::spec_u128_to_le_bytes(low));
    assert(b.subrange(16, 32) == vstd::bytes::spec_u128_to_le_bytes(high));
}

fn to_key(hash: &[u8; 32]) -> (key: (u128, u128))
    ensures
        key == hash_key(hash@),
{
    let bytes = hash.as_slice();
    (
        u128_from_le_bytes(slice_subrange(bytes, 0, 16)),
        u128_from_le_bytes(slice_subrange(bytes, 16, 32)),
    )
}

#[derive(Debug)]
struct InnerMempool {
    txs: BTreeMap<(u128, u128), Transaction>,
    wtxids: BTreeMap<(u128, u128), Txid>,
}

impl InnerMempool {
    spec fn model(self) -> MempoolView {
        MempoolView {
            txs: Map::new(
                |id: Seq<u8>| id.len() == 32 && self.txs@.contains_key(hash_key(id)),
                |id: Seq<u8>| self.txs@[hash_key(id)]@,
            ),
            wtxids: Map::new(
                |id: Seq<u8>| id.len() == 32 && self.wtxids@.contains_key(hash_key(id)),
                |id: Seq<u8>| self.wtxids@[hash_key(id)]@,
            ),
        }
    }

    /// The mempool is well-formed, and each transaction is stored under the key of its txid.
    spec fn wf(self) -> bool {
        &&& self.model().wf()
        &&& forall|k: (u128, u128)| #[trigger]
            self.txs@.contains_key(k) ==> {
                &&& crate::primitives::txid_of(self.txs@[k]@).len() == 32
                &&& hash_key(crate::primitives::txid_of(self.txs@[k]@)) == k
            }
    }

    /// The values under distinct keys that cover the map are a listing.
    proof fn lemma_lists(self, keys: Seq<(u128, u128)>, listing: Seq<TransactionView>)
        requires
            self.wf(),
            keys.no_duplicates(),
            keys.to_set() == self.txs@.dom(),
            listing.len() == keys.len(),
            forall|i: int| 0 <= i < keys.len() ==> #[trigger] listing[i] == self.txs@[keys[i]]@,
        ensures
            self.model().lists(listing),
    {
        let m = self.model();
        let ids = listing.map_values(|tx: TransactionView| crate::primitives::txid_of(tx));
        assert forall|i: int| 0 <= i < listing.len() implies {
            &&& #[trigger] ids[i].len() == 32
            &&& hash_key(ids[i]) == keys[i]
            &&& m.by_txid(ids[i]) == Some(listing[i])
        } by {
            assert(keys.to_set().contains(keys[i]));
            assert(listing[i] == self.txs@[keys[i]]@);
        }
        assert forall|i: int, j: int| 0 <= i < ids.len() && 0 <= j < ids.len() && i
            != j implies ids[i] != ids[j] by {
            assert(ids[i].len() == 32 && ids[j].len() == 32);
            assert(keys[i] != keys[j]);
        }
        assert forall|id: Seq<u8>| #[trigger] m.txs.contains_key(id) implies ids.contains(id) by {
            let k = hash_key(id);
            assert(keys.to_set().contains(k));
            let i = choose|i: int| 0 <= i < keys.len() && keys[i] == k;
            assert(ids[i].len() == 32);
            lemma_hash_key_injective(ids[i], id);
        }
        assert(ids.to_set() =~= m.txs.dom()) by {
            assert forall|id: Seq<u8>| ids.to_set().contains(id) implies m.txs.dom().contains(
                id,
            ) by {
                let i = choose|i: int| 0 <= i < ids.len() && ids[i] == id;
                assert(ids[i].len() == 32);
            }
        }
        ids.unique_seq_to_set();
        assert forall|i: int| 0 <= i < listing.len() implies m.by_txid(
            crate::primitives::txid_of(#[trigger] listing[i]),
        ) == Some(listing[i]) by {
            assert(ids[i].len() == 32);
        }
    }

    fn empty() -> (r: InnerMempool)
        ensures
            r.model() == MempoolView::empty(),
            r.wf(),
    {
        let r = InnerMempool { txs: BTreeMap::new(), wtxids: BTreeMap::new() };
        assert(r.model() =~= MempoolView::empty());
        r
    }

    fn add(&mut self, tx: Transaction)
        requires
            old(self).wf(),
        ensures
            final(self).model() == old(self).model().add(tx@),
            final(self).wf(),
    {
        broadcast use vstd::laws_cmp::group_laws_cmp;

        let wtxid = tx.wtxid();
        let txid = tx.txid();
        let ghost bytes = tx@;
        self.wtxids.insert(to_key(&wtxid.0), txid);
        self.txs.insert(to_key(&txid.0), tx);
        proof {
            let wkey = hash_key(wtxid@);
            let key = hash_key(txid@);
            assert(self.wtxids@ == old(self).wtxids@.insert(wkey, txid));
            assert(self.txs@ == old(self).txs@.insert(key, tx));
            assert forall|id: Seq<u8>| id.len() == 32 && hash_key(id) == wkey implies id
                == wtxid@ by {
                lemma_hash_key_injective(id, wtxid@);
            }
            assert forall|id: Seq<u8>| id.len() == 32 && hash_key(id) == key implies id
                == txid@ by {
                lemma_hash_key_injective(id, txid@);
            }
            assert(self.model().txs =~= old(self).model().add(bytes).txs);
            assert(self.model().wtxids =~= old(self).model().add(bytes).wtxids);
            law_add_keeps_wf(old(self).model(), bytes);
        }
    }
}

/// Container for unconfirmed, but valid Bitcoin transactions
///
/// It is normally shared between peers, so that transactions are not duplicated in memory.
#[derive(Debug)]
pub struct Mempool(InnerMempool);

impl View for Mempool {
    type V = MempoolView;

    closed spec fn view(&self) -> MempoolView {
        self.0.model()
    }
}

#[derive(Debug, Clone, Copy, PartialEq, Eq)]
enum TxIdentifier {
    Wtxid(Wtxid),
    Txid(Txid),
}

impl Mempool {
    #[verifier::type_invariant]
    spec fn inv(&self) -> bool {
        self.0.wf()
    }

    /// Create a new empty mempool
    pub fn new() -> (r: Mempool)
        ensures
            r@ == MempoolView::empty(),
    {
        Self::default()
    }

    /// Add a transaction to the mempool
    ///
    /// Note that this doesn't propagate the transaction to other peers. To do that,
    /// [`broadcast_tx`](crate::networking::peer::InvPeer::broadcast_tx) should be used.
    pub fn add_tx(&mut self, tx: Transaction)
        ensures
            final(self)@ == old(self)@.add(tx@),
            final(self)@.txs == old(self)@.txs.insert(crate::primitives::txid_of(tx@), tx@),
            final(self)@.wtxids == old(self)@.wtxids.insert(
                crate::primitives::wtxid_of(tx@),
                crate::primitives::txid_of(tx@),
            ),
            final(self)@.wf(),
    {
        proof {
            use_type_invariant(&*self);
        }
        let mut inner = InnerMempool::empty();
        std::mem::swap(&mut self.0, &mut inner);
        inner.add(tx);
        self.0 = inner;
    }

    /// Look up a transaction in the mempool, given an inventory request
    pub fn get_tx(&self, inventory: &Inventory) -> (tx: Option<Transaction>)
        ensures
            match tx {
                Some(tx) => self@.lookup(*inventory) == Some(tx@),
                None => self@.lookup(*inventory) is None,
            },
            self@.wf(),
    {
        proof {
            use_type_invariant(self);
        }
        broadcast use vstd::laws_cmp::group_laws_cmp;

        let identifier = match inventory {
            Inventory::Error
            | Inventory::Block(_)
            | Inventory::WitnessBlock(_)
            | Inventory::CompactBlock(_)
            | Inventory::Unknown { .. } => return None,
            Inventory::Transaction(txid) => TxIdentifier::Txid(*txid),
            Inventory::WitnessTransaction(txid) => TxIdentifier::Txid(*txid),
            Inventory::WTx(wtxid) => TxIdentifier::Wtxid(*wtxid),
        };
        let txid: Option<Txid> = match identifier {
            TxIdentifier::Txid(txid) => Some(txid),
            TxIdentifier::Wtxid(wtxid) => match self.0.wtxids.get(&to_key(&wtxid.0)) {
                Some(txid) => Some(*txid),
                None => None,
            },
        };
        match txid {
            None => None,
            Some(txid) => match self.0.txs.get(&to_key(&txid.0)) {
                Some(tx) => Some(tx.clone()),
                None => None,
            },
        }
    }

    /// Return whether or not the mempool contains a transaction with a given txid
    pub fn has_tx(&self, txid: &Txid) -> (has: bool)
        ensures
            has == self@.txs.contains_key(txid@),
            self@.wf(),
    {
        broadcast use vstd::laws_cmp::group_laws_cmp;

        proof {
            use_type_invariant(self);
        }
        self.0.txs.contains_key(&to_key(&txid.0))
    }

    /// Return the list of transactions contained in the mempool
    pub fn iter_txs(&self) -> (txs: Vec<Transaction>)
        ensures
            self@.lists(txs@.map_values(|tx: Transaction| tx@)),
            self@.wf(),
    {
        broadcast use vstd::laws_cmp::group_laws_cmp;

        proof {
            use_type_invariant(self);
        }
        let mut txs: Vec<Transaction> = Vec::new();
        let values = self.0.txs.values();
        let ghost keys = choose|keys: Seq<(u128, u128)>|
            {
                &&& keys.to_set() == self.0.txs@.dom()
                &&& keys.no_duplicates()
                &&& vstd::std_specs::iter::IteratorSpec::remaining(&values) == keys.map(
                    |i: int, k| &self.0.txs@[k],
                )
            };
        for tx in it: values
            invariant
                txs.len() == it.index(),
                it.seq() == keys.map(|i: int, k| &self.0.txs@[k]),
                forall|i: int| 0 <= i < txs.len() ==> (#[trigger] txs@[i])@ == it.seq()[i]@,
        {
            txs.push(tx.clone());
        }
        proof {
            self.0.lemma_lists(keys, txs@.map_values(|tx: Transaction| tx@));
        }
        txs
    }
}

/// What can be seen of a mempool: nothing where it cannot be had
pub open spec fn seen(mempool: Option<&Mempool>) -> MempoolView {
    match mempool {
        Some(mempool) => mempool@,
        None => MempoolView::empty(),
    }
}

/// What can be seen of a mempool that can be changed: nothing where it cannot be had
pub open spec fn seen_mut(mempool: Option<&mut Mempool>) -> MempoolView {
    match mempool {
        Some(mempool) => (*mempool)@,
        None => MempoolView::empty(),
    }
}

impl Default for Mempool {
    fn default() -> (r: Mempool)
        ensures
            r@ == MempoolView::empty(),
    {
        Mempool(InnerMempool::empty())
    }
}

/// A mempool stays well-formed when a transaction is added.
pub proof fn law_add_keeps_wf(m: MempoolView, tx: TransactionView)
    requires
        m.wf(),
    ensures
        m.add(tx).wf(),
{
    assert(m.add(tx).txs.dom() =~= m.txs.dom().insert(crate::primitives::txid_of(tx)));
}

/// A transaction that was added is found, by either of its ids and however it is asked for.
pub proof fn law_added_is_found(m: MempoolView, tx: TransactionView, txid: Txid, wtxid: Wtxid)
    ensures
        m.add(tx).by_txid(crate::primitives::txid_of(tx)) == Some(tx),
        m.add(tx).by_wtxid(crate::primitives::wtxid_of(tx)) == Some(tx),
        txid@ == crate::primitives::txid_of(tx) ==> {
            &&& m.add(tx).lookup(Inventory::Transaction(txid)) == Some(tx)
            &&& m.add(tx).lookup(Inventory::WitnessTransaction(txid)) == Some(tx)
        },
        wtxid@ == crate::primitives::wtxid_of(tx) ==> m.add(tx).lookup(Inventory::WTx(wtxid))
            == Some(tx),
{
}

/// Adding a transaction changes what no other txid finds. What another wtxid finds changes
/// only where it leads to the same txid: it then finds the new transaction.
pub proof fn law_add_leaves_others(
    m: MempoolView,
    tx: TransactionView,
    txid: Seq<u8>,
    wtxid: Seq<u8>,
)
    ensures
        txid != crate::primitives::txid_of(tx) ==> m.add(tx).by_txid(txid) == m.by_txid(txid),
        wtxid != crate::primitives::wtxid_of(tx) ==> m.add(tx).by_wtxid(wtxid) == if m.wtxids.contains_key(
            wtxid,
        ) && m.wtxids[wtxid] == crate::primitives::txid_of(tx) {
            Some(tx)
        } else {
            m.by_wtxid(wtxid)
        },
{
}

/// Nothing that could be found is lost when a transaction is added.
pub proof fn law_add_loses_nothing(m: MempoolView, tx: TransactionView, item: Inventory)
    ensures
        m.lookup(item) is Some ==> m.add(tx).lookup(item) is Some,
{
}

/// Adding a transaction twice is adding it once.
pub proof fn law_add_twice(m: MempoolView, tx: TransactionView)
    ensures
        m.add(tx).add(tx) == m.add(tx),
{
    assert(m.add(tx).add(tx) =~= m.add(tx));
}

/// The order in which two transactions are added does not matter, unless they share an id.
pub proof fn law_add_commutes(m: MempoolView, a: TransactionView, b: TransactionView)
    ensures
        crate::primitives::txid_of(a) != crate::primitives::txid_of(b)
            && crate::primitives::wtxid_of(a) != crate::primitives::wtxid_of(b) ==> m.add(a).add(b)
            == m.add(b).add(a),
{
    if crate::primitives::txid_of(a) != crate::primitives::txid_of(b)
        && crate::primitives::wtxid_of(a) != crate::primitives::wtxid_of(b) {
        assert(m.add(a).add(b) =~= m.add(b).add(a));
    }
}

/// Transactions are not duplicated: a mempool grows by one with a transaction whose txid is
/// new, and by none with any other.
pub proof fn law_one_entry_per_txid(m: MempoolView, tx: TransactionView)
    requires
        m.wf(),
    ensures
        m.add(tx).txs.dom().len() == m.txs.dom().len() + if m.txs.contains_key(
            crate::primitives::txid_of(tx),
        ) {
            0nat
        } else {
            1nat
        },
{
    assert(m.add(tx).txs.dom() =~= m.txs.dom().insert(crate::primitives::txid_of(tx)));
}

/// What a txid finds has that txid.
pub proof fn law_found_by_txid_has_txid(m: MempoolView, txid: Seq<u8>)
    requires
        m.wf(),
    ensures
        m.by_txid(txid) matches Some(tx) ==> crate::primitives::txid_of(tx) == txid,
{
}

/// Every wtxid that was recorded finds a transaction, of the txid recorded with it.
pub proof fn law_recorded_wtxid_finds(m: MempoolView, wtxid: Seq<u8>)
    requires
        m.wf(),
        m.wtxids.contains_key(wtxid),
    ensures
        m.by_wtxid(wtxid) matches Some(tx) && crate::primitives::txid_of(tx) == m.wtxids[wtxid],
{
}

/// The last of some transactions that has a txid
pub open spec fn latest_by_txid(txs: Seq<TransactionView>, txid: Seq<u8>) -> Option<
    TransactionView,
>
    decreases txs.len(),
{
    if txs.len() == 0 {
        None
    } else if crate::primitives::txid_of(txs.last()) == txid {
        Some(txs.last())
    } else {
        latest_by_txid(txs.drop_last(), txid)
    }
}

/// The last of some transactions that has a wtxid
pub open spec fn latest_by_wtxid(txs: Seq<TransactionView>, wtxid: Seq<u8>) -> Option<
    TransactionView,
>
    decreases txs.len(),
{
    if txs.len() == 0 {
        None
    } else if crate::primitives::wtxid_of(txs.last()) == wtxid {
        Some(txs.last())
    } else {
        latest_by_wtxid(txs.drop_last(), wtxid)
    }
}

/// A mempool stays well-formed whatever is added to it.
pub proof fn law_history_keeps_wf(m: MempoolView, txs: Seq<TransactionView>)
    requires
        m.wf(),
    ensures
        m.add_all(txs).wf(),
    decreases txs.len(),
{
    if txs.len() > 0 {
        law_history_keeps_wf(m, txs.drop_last());
        law_add_keeps_wf(m.add_all(txs.drop_last()), txs.last());
    }
}

/// After any number of additions a txid finds the transaction that was added last under it,
/// and what it found before where there was none.
pub proof fn law_history_by_txid(m: MempoolView, txs: Seq<TransactionView>, txid: Seq<u8>)
    ensures
        m.add_all(txs).by_txid(txid) == match latest_by_txid(txs, txid) {
            Some(tx) => Some(tx),
            None => m.by_txid(txid),
        },
    decreases txs.len(),
{
    if txs.len() > 0 {
        law_history_by_txid(m, txs.drop_last(), txid);
    }
}

/// After any number of additions a wtxid leads to the txid of the transaction that was added
/// last under it, and where it led before where there was none. It finds what that txid finds.
pub proof fn law_history_by_wtxid(m: MempoolView, txs: Seq<TransactionView>, wtxid: Seq<u8>)
    ensures
        m.add_all(txs).by_wtxid(wtxid) == match latest_by_wtxid(txs, wtxid) {
            Some(tx) => m.add_all(txs).by_txid(crate::primitives::txid_of(tx)),
            None => if m.wtxids.contains_key(wtxid) {
                m.add_all(txs).by_txid(m.wtxids[wtxid])
            } else {
                None
            },
        },
{
    lemma_history_of_wtxid(m, txs, wtxid);
}

proof fn lemma_history_of_wtxid(m: MempoolView, txs: Seq<TransactionView>, wtxid: Seq<u8>)
    ensures
        match latest_by_wtxid(txs, wtxid) {
            Some(tx) => {
                &&& m.add_all(txs).wtxids.contains_key(wtxid)
                &&& m.add_all(txs).wtxids[wtxid] == crate::primitives::txid_of(tx)
            },
            None => {
                &&& m.add_all(txs).wtxids.contains_key(wtxid) == m.wtxids.contains_key(wtxid)
                &&& m.add_all(txs).wtxids[wtxid] == m.wtxids[wtxid]
            },
        },
    decreases txs.len(),
{
    if txs.len() > 0 {
        lemma_history_of_wtxid(m, txs.drop_last(), wtxid);
    }
}

/// Everything that was ever added is found, by its txid and by its wtxid, though perhaps in a
/// later version that shares its txid.
pub proof fn law_history_is_found(m: MempoolView, txs: Seq<TransactionView>, i: int)
    requires
        0 <= i < txs.len(),
    ensures
        m.add_all(txs).by_txid(crate::primitives::txid_of(txs[i])) is Some,
        m.add_all(txs).by_wtxid(crate::primitives::wtxid_of(txs[i])) is Some,
    decreases txs.len(),
{
    if i < txs.len() - 1 {
        law_history_is_found(m, txs.drop_last(), i);
        assert(txs.drop_last()[i] == txs[i]);
    }
}

/// A mempool that began empty holds the txids that were added, and no others.
pub proof fn law_history_of_txids(txs: Seq<TransactionView>)
    ensures
        MempoolView::empty().add_all(txs).txs.dom() == txs.map_values(
            |tx: TransactionView| crate::primitives::txid_of(tx),
        ).to_set(),
    decreases txs.len(),
{
    let id = |tx: TransactionView| crate::primitives::txid_of(tx);
    let ids = txs.map_values(id);
    let held = MempoolView::empty().add_all(txs).txs.dom();
    if txs.len() > 0 {
        let rest = txs.drop_last();
        law_history_of_txids(rest);
        assert(ids =~= rest.map_values(id).push(id(txs.last())));
        assert forall|txid: Seq<u8>| ids.to_set().contains(txid) implies held.contains(txid) by {
            let i = choose|i: int| 0 <= i < ids.len() && ids[i] == txid;
            if i < rest.len() {
                assert(rest.map_values(id)[i] == txid);
                assert(rest.map_values(id).to_set().contains(txid));
            }
        }
        assert forall|txid: Seq<u8>| held.contains(txid) implies ids.to_set().contains(txid) by {
            if txid == id(txs.last()) {
                assert(ids[ids.len() - 1] == txid);
            } else {
                assert(rest.map_values(id).to_set().contains(txid));
                let i = choose|i: int|
                    0 <= i < rest.len() && rest.map_values(id)[i] == txid;
                assert(ids[i] == txid);
            }
        }
    }
    assert(held =~= ids.to_set());
}

/// Two transactions that differ in nothing but their witnesses take one place: the later one
/// is found in the place of the earlier.
pub proof fn law_one_entry_for_all_witnesses(
    m: MempoolView,
    earlier: TransactionView,
    later: TransactionView,
)
    requires
        earlier.stripped() == later.stripped(),
    ensures
        m.add(earlier).add(later).txs == m.add(later).txs,
        m.add(earlier).add(later).by_txid(crate::primitives::txid_of(earlier)) == Some(later),
        m.add(earlier).add(later).by_wtxid(crate::primitives::wtxid_of(earlier)) == Some(later),
        m.add(earlier).add(later).by_wtxid(crate::primitives::wtxid_of(later)) == Some(later),
{
    assert(m.add(earlier).add(later).txs =~= m.add(later).txs);
}

/// An item that names no transaction finds none, and a txid finds the same whether or not the
/// witnesses are asked for.
pub proof fn law_lookup_by_kind(m: MempoolView, item: Inventory, txid: Txid)
    ensures
        !(item is Transaction || item is WitnessTransaction || item is WTx) ==> m.lookup(item)
            is None,
        m.lookup(Inventory::Transaction(txid)) == m.lookup(Inventory::WitnessTransaction(txid)),
{
}

/// A new mempool has no transaction: nothing is found in it, and its only listing is empty.
pub proof fn law_empty_finds_nothing(item: Inventory, id: Seq<u8>, listing: Seq<TransactionView>)
    ensures
        MempoolView::empty().wf(),
        MempoolView::empty().lookup(item) is None,
        MempoolView::empty().by_txid(id) is None,
        MempoolView::empty().by_wtxid(id) is None,
        !MempoolView::empty().txs.contains_key(id),
        !MempoolView::empty().wtxids.contains_key(id),
        MempoolView::empty().lists(listing) ==> listing.len() == 0,
{
}

/// A txid finds exactly what is stored under it, and a wtxid what is stored under the txid
/// that was recorded for it.
pub proof fn law_ids_find_what_is_stored(m: MempoolView, txid: Seq<u8>, wtxid: Seq<u8>)
    ensures
        m.by_txid(txid) is Some <==> m.txs.contains_key(txid),
        m.txs.contains_key(txid) ==> m.by_txid(txid) == Some(m.txs[txid]),
        !m.wtxids.contains_key(wtxid) ==> m.by_wtxid(wtxid) is None,
        m.wtxids.contains_key(wtxid) ==> m.by_wtxid(wtxid) == m.by_txid(m.wtxids[wtxid]),
{
}

/// An item that names a transaction finds what its hash finds, as a txid or as a wtxid.
pub proof fn law_items_find_by_their_hash(m: MempoolView, txid: Txid, wtxid: Wtxid)
    ensures
        m.lookup(Inventory::Transaction(txid)) == m.by_txid(txid.0@),
        m.lookup(Inventory::WitnessTransaction(txid)) == m.by_txid(txid.0@),
        m.lookup(Inventory::WTx(wtxid)) == m.by_wtxid(wtxid.0@),
{
}

/// A listing has every transaction of the mempool, each once, and no other.
pub proof fn law_listing_is_complete(m: MempoolView, listing: Seq<TransactionView>)
    requires
        m.wf(),
        m.lists(listing),
    ensures
        listing.len() == m.txs.dom().len(),
        forall|id: Seq<u8>| #[trigger] m.txs.contains_key(id) ==> listing.contains(m.txs[id]),
        forall|i: int|
            0 <= i < listing.len() ==> m.txs.contains_key(
                crate::primitives::txid_of(#[trigger] listing[i]),
            ) && m.txs[crate::primitives::txid_of(listing[i])] == listing[i],
        forall|i: int, j: int|
            0 <= i < listing.len() && 0 <= j < listing.len() && i != j
                ==> crate::primitives::txid_of(#[trigger] listing[i])
                != crate::primitives::txid_of(#[trigger] listing[j]),
{
    let ids = listing.map_values(|tx: TransactionView| crate::primitives::txid_of(tx));
    assert forall|i: int| 0 <= i < listing.len() implies m.txs.contains_key(
        crate::primitives::txid_of(#[trigger] listing[i]),
    ) && m.txs[crate::primitives::txid_of(listing[i])] == listing[i] by {
        assert(m.by_txid(crate::primitives::txid_of(listing[i])) == Some(listing[i]));
    }
    assert forall|id: Seq<u8>| #[trigger] m.txs.contains_key(id) implies listing.contains(
        m.txs[id],
    ) by {
        assert(ids.to_set().contains(id));
        let i = choose|i: int| 0 <= i < ids.len() && ids[i] == id;
        assert(listing[i] == m.txs[id]);
    }
    assert forall|i: int, j: int|
        0 <= i < listing.len() && 0 <= j < listing.len() && i
            != j implies crate::primitives::txid_of(#[trigger] listing[i])
        != crate::primitives::txid_of(#[trigger] listing[j]) by {
        assert(ids[i] != ids[j]);
    }
}

/// Of a mempool that can be had all is seen, and nothing of one that cannot.
pub proof fn law_mempool_is_seen_whole(mempool: &Mempool)
    ensures
        seen(Some(mempool)) == mempool@,
        seen(None) == MempoolView::empty(),
{
}

/// Of a mempool that can be had and changed all is seen, and nothing of one that cannot.
pub proof fn law_changeable_mempool_is_seen_whole(mempool: Option<&mut Mempool>)
    ensures
        mempool matches Some(m) ==> seen_mut(mempool) == (*m)@,
        mempool is None ==> seen_mut(mempool) == MempoolView::empty(),
{
}

/// Adding more transactions is adding the first of them and then the others.
pub proof fn law_history_is_added_in_order(
    m: MempoolView,
    earlier: Seq<TransactionView>,
    later: Seq<TransactionView>,
    tx: TransactionView,
)
    ensures
        m.add_all(seq![]) == m,
        m.add_all(seq![tx]) == m.add(tx),
        m.add_all(earlier + later) == m.add_all(earlier).add_all(later),
    decreases later.len(),
{
    assert(seq![tx].drop_last() =~= Seq::<TransactionView>::empty());
    if later.len() == 0 {
        assert(earlier + later =~= earlier);
    } else {
        law_history_is_added_in_order(m, earlier, later.drop_last(), tx);
        assert((earlier + later).drop_last() =~= earlier + later.drop_last());
    }
}

} // verus!
