use bitpeer::mempool::Mempool;
use bitpeer::networking::message::Inventory;
use bitpeer::primitives::{BlockHash, OutPoint, Transaction, TxIn, TxOut, Txid, Wtxid};

/// A transaction with a witness
const SEGWIT_TX: &str = "02000000000101595895ea20179de87052b4046dfe6fd515860505d6511a9004cf12a1f93cac7c0100000000ffffffff01deb807000000000017a9140f3444e271620c736808aa7b33e370bd87cb5a078702483045022100fb60dad8df4af2841adc0346638c16d0b8035f5e3f3753b88db122e70c79f9370220756e6633b17fd2710e626347d28d60b0a2d6cbb41de51740644b9fb3ba7751040121028fa937ca8cba2197a37c007176ed8941055d3bcb8627d085e94553e62f057dcc00000000";

/// A transaction without witnesses
const LEGACY_TX: &str = "0100000001a15d57094aa7a21a28cb20b59aab8fc7d1149a3bdbcddba9c622e4f5f6a99ece010000006c493046022100f93bb0e7d8db7bd46e40132d1f8242026e045f03a0efe71bbb8e3f475e970d790221009337cd7f1f929f00cc6ff01f03729b069a7c21b59b1736ddfee5db5946c5da8c0121033b9b137ee87d5a812d6f506efdd37f0affa7ffc310711c06c7f3e097c9447c52ffffffff0100e1f505000000001976a9140389035a9225b3839e2bbf32d826a1e222031fd888ac00000000";

fn from_hex(hex: &str) -> Vec<u8> {
    (0..hex.len() / 2).map(|i| u8::from_str_radix(&hex[2 * i..2 * i + 2], 16).unwrap()).collect()
}

/// The transaction of the `bitcoin` crate in the types of this library
fn from_outside(tx: &bitcoin::Transaction) -> Transaction {
    let input = tx.input.iter().map(|input| TxIn {
        previous_output: OutPoint {
            txid: Txid(bitcoin::hashes::Hash::into_inner(input.previous_output.txid)),
            vout: input.previous_output.vout,
        },
        script_sig: input.script_sig.to_bytes(),
        sequence: input.sequence.0,
        witness: input.witness.to_vec(),
    });
    let output = tx.output.iter().map(|output| TxOut {
        value: output.value,
        script_pubkey: output.script_pubkey.to_bytes(),
    });
    Transaction {
        version: tx.version,
        lock_time: tx.lock_time.0,
        input: input.collect(),
        output: output.collect(),
    }
}

fn parse(hex: &str) -> Transaction {
    from_outside(&bitcoin::consensus::deserialize(&from_hex(hex)).unwrap())
}

fn segwit_tx() -> Transaction {
    parse(SEGWIT_TX)
}

fn legacy_tx() -> Transaction {
    parse(LEGACY_TX)
}

/// The transaction of [`segwit_tx`] with another witness: same txid, other wtxid
fn malleated_tx() -> Transaction {
    let mut tx = segwit_tx();
    tx.input[0].witness = vec![vec![7]];
    tx
}

#[test]
fn new_mempool_is_empty() {
    let mempool = Mempool::new();
    assert!(mempool.iter_txs().is_empty());
    assert!(!mempool.has_tx(&segwit_tx().txid()));
    assert_eq!(mempool.get_tx(&Inventory::Transaction(segwit_tx().txid())), None);
}

#[test]
fn added_transaction_is_found_by_either_id() {
    let mut mempool = Mempool::new();
    let tx = segwit_tx();
    mempool.add_tx(tx.clone());
    assert!(mempool.has_tx(&tx.txid()));
    assert_eq!(mempool.get_tx(&Inventory::Transaction(tx.txid())), Some(segwit_tx()));
    assert_eq!(mempool.get_tx(&Inventory::WitnessTransaction(tx.txid())), Some(segwit_tx()));
    assert_eq!(mempool.get_tx(&Inventory::WTx(tx.wtxid())), Some(segwit_tx()));
    assert!(!mempool.has_tx(&legacy_tx().txid()));
    assert_eq!(mempool.get_tx(&Inventory::Transaction(legacy_tx().txid())), None);
    assert_eq!(mempool.get_tx(&Inventory::WTx(legacy_tx().wtxid())), None);
}

#[test]
fn txid_and_wtxid_are_not_confused() {
    let mut mempool = Mempool::new();
    let tx = segwit_tx();
    mempool.add_tx(tx.clone());
    assert_eq!(mempool.get_tx(&Inventory::Transaction(Txid(tx.wtxid().0))), None);
    assert_eq!(mempool.get_tx(&Inventory::WTx(Wtxid(tx.txid().0))), None);
}

#[test]
fn items_that_name_no_transaction_find_none() {
    let mut mempool = Mempool::new();
    let tx = segwit_tx();
    mempool.add_tx(tx.clone());
    let hash = tx.txid().0;
    for item in vec![
        Inventory::Error,
        Inventory::Block(BlockHash(hash)),
        Inventory::CompactBlock(BlockHash(hash)),
        Inventory::WitnessBlock(BlockHash(hash)),
        Inventory::Unknown { inv_type: 9, hash },
    ] {
        assert_eq!(mempool.get_tx(&item), None);
    }
}

#[test]
fn a_txid_has_one_entry() {
    let mut mempool = Mempool::new();
    mempool.add_tx(segwit_tx());
    mempool.add_tx(segwit_tx());
    assert_eq!(mempool.iter_txs(), vec![segwit_tx()]);
    mempool.add_tx(legacy_tx());
    let txs = mempool.iter_txs();
    assert_eq!(txs.len(), 2);
    assert!(txs.contains(&segwit_tx()) && txs.contains(&legacy_tx()));
}

#[test]
fn last_of_two_transactions_with_one_txid_is_kept() {
    let mut mempool = Mempool::new();
    let first = segwit_tx();
    let second = malleated_tx();
    assert_eq!(first.txid(), second.txid());
    assert_ne!(first.wtxid(), second.wtxid());
    mempool.add_tx(first.clone());
    mempool.add_tx(second.clone());
    assert_eq!(mempool.iter_txs(), vec![malleated_tx()]);
    assert_eq!(mempool.get_tx(&Inventory::Transaction(first.txid())), Some(malleated_tx()));
    assert_eq!(mempool.get_tx(&Inventory::WTx(first.wtxid())), Some(malleated_tx()));
    assert_eq!(mempool.get_tx(&Inventory::WTx(second.wtxid())), Some(malleated_tx()));
}

#[test]
fn order_of_adding_does_not_matter() {
    let mut one = Mempool::new();
    one.add_tx(segwit_tx());
    one.add_tx(legacy_tx());
    let mut other = Mempool::new();
    other.add_tx(legacy_tx());
    other.add_tx(segwit_tx());
    for tx in vec![segwit_tx(), legacy_tx()] {
        let item = Inventory::WTx(tx.wtxid());
        assert_eq!(one.get_tx(&item), Some(tx.clone()));
        assert_eq!(other.get_tx(&item), Some(tx));
    }
}

#[test]
fn hashes_that_share_a_half_are_told_apart() {
    let mut mempool = Mempool::new();
    let tx = legacy_tx();
    mempool.add_tx(tx.clone());
    for i in vec![0, 15, 16, 31] {
        let mut hash = tx.txid().0;
        hash[i] ^= 1;
        assert!(!mempool.has_tx(&Txid(hash)));
    }
}

#[test]
fn transaction_of_any_size_is_kept() {
    let mut large = segwit_tx();
    large.input[0].witness = vec![vec![1; 4_000_001]];
    let mut mempool = Mempool::new();
    mempool.add_tx(large.clone());
    assert_eq!(mempool.get_tx(&Inventory::WTx(large.wtxid())), Some(large));
}

#[test]
fn history_is_answered_with_the_latest() {
    let mut mempool = Mempool::new();
    for tx in vec![segwit_tx(), legacy_tx(), malleated_tx(), legacy_tx(), segwit_tx()] {
        mempool.add_tx(tx);
    }
    assert_eq!(mempool.iter_txs().len(), 2);
    let item = Inventory::Transaction(malleated_tx().txid());
    assert_eq!(mempool.get_tx(&item), Some(segwit_tx()));
    assert_eq!(mempool.get_tx(&Inventory::WTx(malleated_tx().wtxid())), Some(segwit_tx()));
    assert_eq!(mempool.get_tx(&Inventory::WTx(legacy_tx().wtxid())), Some(legacy_tx()));
}
