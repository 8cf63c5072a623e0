use bitpeer::mempool::Mempool;
use bitpeer::networking::handshake::greet_with_nonce;
use bitpeer::networking::inbox::{Inbox, RecvStep};
use bitpeer::networking::message::{
    frame, Inventory, Network, NetworkMessage, RawNetworkMessage,
};
use bitpeer::networking::reader::{Reader, ReaderStep};
use bitpeer::primitives::{BlockHash, OutPoint, Transaction, TxIn, TxOut, Txid};

/// A transaction with a witness
const SEGWIT_TX: &str = "02000000000101595895ea20179de87052b4046dfe6fd515860505d6511a9004cf12a1f93cac7c0100000000ffffffff01deb807000000000017a9140f3444e271620c736808aa7b33e370bd87cb5a078702483045022100fb60dad8df4af2841adc0346638c16d0b8035f5e3f3753b88db122e70c79f9370220756e6633b17fd2710e626347d28d60b0a2d6cbb41de51740644b9fb3ba7751040121028fa937ca8cba2197a37c007176ed8941055d3bcb8627d085e94553e62f057dcc00000000";

/// A transaction without witnesses
const LEGACY_TX: &str = "0100000001a15d57094aa7a21a28cb20b59aab8fc7d1149a3bdbcddba9c622e4f5f6a99ece010000006c493046022100f93bb0e7d8db7bd46e40132d1f8242026e045f03a0efe71bbb8e3f475e970d790221009337cd7f1f929f00cc6ff01f03729b069a7c21b59b1736ddfee5db5946c5da8c0121033b9b137ee87d5a812d6f506efdd37f0affa7ffc310711c06c7f3e097c9447c52ffffffff0100e1f505000000001976a9140389035a9225b3839e2bbf32d826a1e222031fd888ac00000000";

fn from_hex(hex: &str) -> Vec<u8> {
    (0..hex.len() / 2).map(|i| u8::from_str_radix(&hex[2 * i..2 * i + 2], 16).unwrap()).collect()
}

/// The transaction of the `bitcoin` crate in the types of this library
fn from_outside(tx: &bitcoin::Transaction) -> Transaction {
    let input = tx.input.iter().map(|input| TxIn {
        previous_output: OutPoint {
            txid: Txid(bitcoin::hashes::Hash::into_inner(input.previous_output.txid)),
            vout: input.previous_output.vout,
        },
        script_sig: input.script_sig.to_bytes(),
        sequence: input.sequence.0,
        witness: input.witness.to_vec(),
    });
    let output = tx.output.iter().map(|output| TxOut {
        value: output.value,
        script_pubkey: output.script_pubkey.to_bytes(),
    });
    Transaction {
        version: tx.version,
        lock_time: tx.lock_time.0,
        input: input.collect(),
        output: output.collect(),
    }
}

fn parse(hex: &str) -> Transaction {
    from_outside(&bitcoin::consensus::deserialize(&from_hex(hex)).unwrap())
}

fn segwit_tx() -> Transaction {
    parse(SEGWIT_TX)
}

fn legacy_tx() -> Transaction {
    parse(LEGACY_TX)
}

/// What a reader on mainnet sends in answer to a message, and what it keeps, when every send
/// succeeds
fn run(
    mempool: &mut Mempool,
    message: NetworkMessage,
) -> (Vec<NetworkMessage>, Option<NetworkMessage>) {
    let mut sent = vec![];
    let reader = Reader::new(Network::Bitcoin);
    let mut step = reader.on_message(Some(mempool), Some(frame(Network::Bitcoin, message)));
    loop {
        match step {
            ReaderStep::Read(_) => return (sent, None),
            ReaderStep::Deliver(message, _) => return (sent, Some(message)),
            ReaderStep::Disconnect => panic!("disconnected"),
            ReaderStep::Send(raw, replying) => {
                assert_eq!(raw.magic, Network::Bitcoin.magic());
                sent.push(raw.payload);
                step = replying.on_sent(true);
            }
        }
    }
}

#[test]
fn ping_is_answered_and_dropped() {
    let (sent, kept) = run(&mut Mempool::new(), NetworkMessage::Ping(77));
    assert_eq!(sent, vec![NetworkMessage::Pong(77)]);
    assert_eq!(kept, None);
}

#[test]
fn alert_is_dropped() {
    let (sent, kept) = run(&mut Mempool::new(), NetworkMessage::Alert(vec![1]));
    assert_eq!(sent, vec![]);
    assert_eq!(kept, None);
}

#[test]
fn other_messages_are_kept() {
    for nonce in vec![1, 2] {
        let (sent, kept) = run(&mut Mempool::new(), NetworkMessage::Pong(nonce));
        assert_eq!(sent, vec![]);
        assert_eq!(kept, Some(NetworkMessage::Pong(nonce)));
    }
    let (sent, kept) = run(&mut Mempool::new(), NetworkMessage::MemPool);
    assert_eq!(sent, vec![]);
    assert_eq!(kept, Some(NetworkMessage::MemPool));
}

#[test]
fn transaction_goes_into_the_mempool() {
    let mut mempool = Mempool::new();
    let (sent, kept) = run(&mut mempool, NetworkMessage::Tx(segwit_tx()));
    assert_eq!(sent, vec![]);
    assert_eq!(kept, Some(NetworkMessage::Tx(segwit_tx())));
    assert_eq!(mempool.iter_txs(), vec![segwit_tx()]);
}

#[test]
fn announced_transactions_are_asked_for() {
    let hash = [3u8; 32];
    let items = vec![
        Inventory::Error,
        Inventory::Transaction(segwit_tx().txid()),
        Inventory::Block(BlockHash(hash)),
        Inventory::WTx(segwit_tx().wtxid()),
        Inventory::CompactBlock(BlockHash(hash)),
        Inventory::WitnessTransaction(legacy_tx().txid()),
        Inventory::WitnessBlock(BlockHash(hash)),
        Inventory::Unknown { inv_type: 9, hash },
    ];
    let (sent, kept) = run(&mut Mempool::new(), NetworkMessage::Inv(items.clone()));
    assert_eq!(sent, vec![NetworkMessage::GetData(vec![items[1], items[3], items[5]])]);
    assert_eq!(kept, Some(NetworkMessage::Inv(items)));
}

#[test]
fn announcement_without_transactions_asks_for_nothing() {
    let (sent, kept) = run(&mut Mempool::new(), NetworkMessage::Inv(vec![]));
    assert_eq!(sent, vec![NetworkMessage::GetData(vec![])]);
    assert_eq!(kept, Some(NetworkMessage::Inv(vec![])));
}

#[test]
fn getdata_is_answered_from_the_mempool() {
    let mut mempool = Mempool::new();
    mempool.add_tx(segwit_tx());
    mempool.add_tx(legacy_tx());
    let items = vec![
        Inventory::WTx(segwit_tx().wtxid()),
        Inventory::Transaction(Txid([9u8; 32])),
        Inventory::Transaction(legacy_tx().txid()),
        Inventory::WitnessBlock(BlockHash(legacy_tx().txid().0)),
        Inventory::WitnessTransaction(segwit_tx().txid()),
    ];
    let (sent, kept) = run(&mut mempool, NetworkMessage::GetData(items.clone()));
    assert_eq!(
        sent,
        vec![
            NetworkMessage::Tx(segwit_tx()),
            NetworkMessage::Tx(legacy_tx()),
            NetworkMessage::Tx(segwit_tx()),
            NetworkMessage::NotFound(vec![items[1], items[3]]),
        ]
    );
    assert_eq!(kept, Some(NetworkMessage::GetData(items)));
}

#[test]
fn getdata_for_what_is_there_has_no_notfound() {
    let mut mempool = Mempool::new();
    mempool.add_tx(legacy_tx());
    let items = vec![Inventory::Transaction(legacy_tx().txid())];
    let (sent, _) = run(&mut mempool, NetworkMessage::GetData(items));
    assert_eq!(sent, vec![NetworkMessage::Tx(legacy_tx())]);
    let (sent, _) = run(&mut mempool, NetworkMessage::GetData(vec![]));
    assert_eq!(sent, vec![]);
}

#[test]
fn messages_of_other_networks_are_dropped() {
    let mut mempool = Mempool::new();
    let reader = Reader::new(Network::Bitcoin);
    let raw = frame(Network::Testnet, NetworkMessage::Tx(segwit_tx()));
    assert!(matches!(reader.on_message(Some(&mut mempool), Some(raw)), ReaderStep::Read(_)));
    assert!(mempool.iter_txs().is_empty());
    let reader = Reader::new(Network::Bitcoin);
    let raw = frame(Network::Regtest, NetworkMessage::Ping(1));
    assert!(matches!(reader.on_message(Some(&mut mempool), Some(raw)), ReaderStep::Read(_)));
    for magic in vec![0, 1, Network::Bitcoin.magic() - 1, u32::MAX] {
        let reader = Reader::new(Network::Bitcoin);
        let raw = RawNetworkMessage { magic, payload: NetworkMessage::Tx(segwit_tx()) };
        assert!(matches!(reader.on_message(Some(&mut mempool), Some(raw)), ReaderStep::Read(_)));
        assert!(mempool.iter_txs().is_empty());
    }
}

#[test]
fn unreadable_message_disconnects() {
    let reader = Reader::new(Network::Bitcoin);
    assert!(matches!(reader.on_message(Some(&mut Mempool::new()), None), ReaderStep::Disconnect));
}

#[test]
fn failed_send_disconnects_before_the_rest_is_sent() {
    let mut mempool = Mempool::new();
    mempool.add_tx(legacy_tx());
    let items = vec![Inventory::Transaction(legacy_tx().txid()), Inventory::Error];
    let raw = frame(Network::Bitcoin, NetworkMessage::GetData(items));
    let step = Reader::new(Network::Bitcoin).on_message(Some(&mut mempool), Some(raw));
    match step {
        ReaderStep::Send(raw, replying) => {
            assert_eq!(raw.payload, NetworkMessage::Tx(legacy_tx()));
            assert!(matches!(replying.on_sent(false), ReaderStep::Disconnect));
        }
        _ => panic!("nothing to send"),
    }
}

#[test]
fn transaction_travels_from_peer_to_peer() {
    let mut theirs = Mempool::new();
    theirs.add_tx(segwit_tx());
    let mut ours = Mempool::new();
    let announced = vec![Inventory::WTx(segwit_tx().wtxid())];
    let (asked, _) = run(&mut ours, NetworkMessage::Inv(announced));
    for message in asked {
        let (answers, _) = run(&mut theirs, message);
        for answer in answers {
            run(&mut ours, answer);
        }
    }
    assert_eq!(ours.iter_txs(), vec![segwit_tx()]);
}

#[test]
fn introductions_are_kept_for_the_handshake() {
    let (raw, _) = greet_with_nonce(Network::Bitcoin, 1, [0; 8], 8333, 2);
    let (sent, kept) = run(&mut Mempool::new(), raw.payload);
    assert_eq!(sent, vec![]);
    assert_eq!(kept.unwrap().cmd(), "version");

    let (sent, kept) = run(&mut Mempool::default(), NetworkMessage::Verack);
    assert_eq!(sent, vec![]);
    assert_eq!(kept, Some(NetworkMessage::Verack));
}

#[test]
fn messages_are_answered_and_kept_without_a_mempool() {
    let reader = Reader::new(Network::Bitcoin);
    let raw = frame(Network::Bitcoin, NetworkMessage::Tx(segwit_tx()));
    match reader.on_message(None, Some(raw)) {
        ReaderStep::Deliver(message, _) => assert_eq!(message, NetworkMessage::Tx(segwit_tx())),
        _ => panic!("the message is lost"),
    }
    let reader = Reader::new(Network::Bitcoin);
    let items = vec![Inventory::Transaction(segwit_tx().txid())];
    let raw = frame(Network::Bitcoin, NetworkMessage::GetData(items));
    match reader.on_message(None, Some(raw)) {
        ReaderStep::Send(raw, _) => assert_eq!(
            raw.payload,
            NetworkMessage::NotFound(vec![Inventory::Transaction(segwit_tx().txid())])
        ),
        _ => panic!("nothing to send"),
    }
}

#[test]
fn run_of_messages_is_answered_and_kept_in_order() {
    let mut mempool = Mempool::new();
    let mut inbox = Inbox::new();
    let mut written = vec![];
    let item = Inventory::Transaction(segwit_tx().txid());
    for message in vec![
        NetworkMessage::Ping(1),
        NetworkMessage::GetData(vec![item]),
        NetworkMessage::Tx(segwit_tx()),
        NetworkMessage::Alert(vec![3]),
        NetworkMessage::GetData(vec![item]),
        NetworkMessage::Ping(2),
    ] {
        let (sent, kept) = run(&mut mempool, message);
        written.extend(sent);
        if let Some(message) = kept {
            inbox.deliver(message);
        }
    }
    assert_eq!(
        written,
        vec![
            NetworkMessage::Pong(1),
            NetworkMessage::NotFound(vec![item]),
            NetworkMessage::Tx(segwit_tx()),
            NetworkMessage::Pong(2),
        ]
    );
    for command in vec!["ping", "alert"] {
        assert!(matches!(inbox.recv(command, None, false), RecvStep::Wait(None)));
    }
    for command in vec!["getdata", "getdata", "tx"] {
        assert!(matches!(inbox.recv(command, None, false), RecvStep::Done(Some(_))));
    }
    assert!(matches!(inbox.recv("getdata", None, false), RecvStep::Wait(None)));
    assert_eq!(mempool.iter_txs(), vec![segwit_tx()]);
}
