use bitpeer::primitives::{OutPoint, Transaction, TxIn, TxOut, Txid};

/// A transaction with a witness
const SEGWIT_TX: &str = "02000000000101595895ea20179de87052b4046dfe6fd515860505d6511a9004cf12a1f93cac7c0100000000ffffffff01deb807000000000017a9140f3444e271620c736808aa7b33e370bd87cb5a078702483045022100fb60dad8df4af2841adc0346638c16d0b8035f5e3f3753b88db122e70c79f9370220756e6633b17fd2710e626347d28d60b0a2d6cbb41de51740644b9fb3ba7751040121028fa937ca8cba2197a37c007176ed8941055d3bcb8627d085e94553e62f057dcc00000000";

/// A transaction without witnesses
const LEGACY_TX: &str = "0100000001a15d57094aa7a21a28cb20b59aab8fc7d1149a3bdbcddba9c622e4f5f6a99ece010000006c493046022100f93bb0e7d8db7bd46e40132d1f8242026e045f03a0efe71bbb8e3f475e970d790221009337cd7f1f929f00cc6ff01f03729b069a7c21b59b1736ddfee5db5946c5da8c0121033b9b137ee87d5a812d6f506efdd37f0affa7ffc310711c06c7f3e097c9447c52ffffffff0100e1f505000000001976a9140389035a9225b3839e2bbf32d826a1e222031fd888ac00000000";

fn from_hex(hex: &str) -> Vec<u8> {
    (0..hex.len() / 2).map(|i| u8::from_str_radix(&hex[2 * i..2 * i + 2], 16).unwrap()).collect()
}

/// The transaction of the `bitcoin` crate in the types of this library
fn from_outside(tx: &bitcoin::Transaction) -> Transaction {
    let input = tx.input.iter().map(|input| TxIn {
        previous_output: OutPoint {
            txid: Txid(bitcoin::hashes::Hash::into_inner(input.previous_output.txid)),
            vout: input.previous_output.vout,
        },
        script_sig: input.script_sig.to_bytes(),
        sequence: input.sequence.0,
        witness: input.witness.to_vec(),
    });
    let output = tx.output.iter().map(|output| TxOut {
        value: output.value,
        script_pubkey: output.script_pubkey.to_bytes(),
    });
    Transaction {
        version: tx.version,
        lock_time: tx.lock_time.0,
        input: input.collect(),
        output: output.collect(),
    }
}

fn parse(hex: &str) -> Transaction {
    from_outside(&bitcoin::consensus::deserialize(&from_hex(hex)).unwrap())
}

fn segwit_tx() -> Transaction {
    parse(SEGWIT_TX)
}

fn legacy_tx() -> Transaction {
    parse(LEGACY_TX)
}

/// A hash as it is displayed, last byte first
fn displayed(hash: &[u8; 32]) -> String {
    hash.iter().rev().map(|byte| format!("{:02x}", byte)).collect()
}

#[test]
fn ids_of_a_transaction_with_witness_differ() {
    let tx = segwit_tx();
    assert_eq!(
        displayed(&tx.txid().0),
        "f5864806e3565c34d1b41e716f72609d00b55ea5eac5b924c9719a842ef42206"
    );
    assert_eq!(
        displayed(&tx.wtxid().0),
        "80b7d8a82d5d5bf92905b06f2014dd699e03837ca172e3a59d51426ebbe3e7f5"
    );
}

#[test]
fn ids_of_a_transaction_without_witness_agree() {
    let tx = legacy_tx();
    let id = "a6eab3c14ab5272a58a5ba91505ba1a4b6d7a3a9fcbd187b6cd99a7b6d548cb7";
    assert_eq!(displayed(&tx.txid().0), id);
    assert_eq!(displayed(&tx.wtxid().0), id);
}

#[test]
fn ids_are_those_of_the_protocol() {
    for hex in vec![SEGWIT_TX, LEGACY_TX] {
        let outside: bitcoin::Transaction =
            bitcoin::consensus::deserialize(&from_hex(hex)).unwrap();
        let tx = parse(hex);
        assert_eq!(tx.txid().0, bitcoin::hashes::Hash::into_inner(outside.txid()));
        assert_eq!(tx.wtxid().0, bitcoin::hashes::Hash::into_inner(outside.wtxid()));
    }
}

#[test]
fn txid_ignores_witnesses() {
    let mut other = segwit_tx();
    other.input[0].witness = vec![vec![7], vec![]];
    assert_eq!(other.txid(), segwit_tx().txid());
    assert_ne!(other.wtxid(), segwit_tx().wtxid());
    other.input[0].witness = vec![];
    assert_eq!(other.txid(), segwit_tx().txid());
    assert_eq!(other.wtxid().0, segwit_tx().txid().0);
}

#[test]
fn txid_depends_on_all_else() {
    let mut changed: Vec<Transaction> = vec![];
    for _ in 0..7 {
        changed.push(segwit_tx());
    }
    changed[0].version += 1;
    changed[1].lock_time += 1;
    changed[2].input[0].previous_output.vout += 1;
    changed[3].input[0].script_sig.push(1);
    changed[4].input[0].sequence -= 1;
    changed[5].output[0].value += 1;
    changed[6].output[0].script_pubkey.push(1);
    for tx in changed {
        assert_ne!(tx.txid(), segwit_tx().txid());
        assert_ne!(tx.wtxid(), segwit_tx().wtxid());
    }
}

#[test]
fn clone_is_the_same_transaction() {
    assert_eq!(segwit_tx().clone(), segwit_tx());
    assert_eq!(legacy_tx().clone(), legacy_tx());
}

#[test]
fn transaction_of_any_size_has_ids() {
    let mut large = segwit_tx();
    large.input[0].witness = vec![vec![1; 4_000_001]];
    assert_eq!(large.txid(), segwit_tx().txid());
    assert_ne!(large.wtxid(), segwit_tx().wtxid());
}
