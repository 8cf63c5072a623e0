use std::time::Duration;

use bitpeer::mempool::Mempool;
use bitpeer::networking::error::NetworkingError;
use bitpeer::networking::handshake::greet_with_nonce;
use bitpeer::networking::inbox::{Inbox, RecvStep};
use bitpeer::networking::message::{
    frame, Address, Inventory, Network, NetworkMessage, ServiceFlags, VersionMessage,
};
use bitpeer::networking::peer::{send_result, InvPeer, Peer};
use bitpeer::networking::request::Fetch;
use bitpeer::primitives::{
    Block, BlockHash, BlockHeader, OutPoint, Transaction, TxIn, TxOut, Txid,
};

/// A transaction with a witness
const SEGWIT_TX: &str = "02000000000101595895ea20179de87052b4046dfe6fd515860505d6511a9004cf12a1f93cac7c0100000000ffffffff01deb807000000000017a9140f3444e271620c736808aa7b33e370bd87cb5a078702483045022100fb60dad8df4af2841adc0346638c16d0b8035f5e3f3753b88db122e70c79f9370220756e6633b17fd2710e626347d28d60b0a2d6cbb41de51740644b9fb3ba7751040121028fa937ca8cba2197a37c007176ed8941055d3bcb8627d085e94553e62f057dcc00000000";

/// A transaction without witnesses
const LEGACY_TX: &str = "0100000001a15d57094aa7a21a28cb20b59aab8fc7d1149a3bdbcddba9c622e4f5f6a99ece010000006c493046022100f93bb0e7d8db7bd46e40132d1f8242026e045f03a0efe71bbb8e3f475e970d790221009337cd7f1f929f00cc6ff01f03729b069a7c21b59b1736ddfee5db5946c5da8c0121033b9b137ee87d5a812d6f506efdd37f0affa7ffc310711c06c7f3e097c9447c52ffffffff0100e1f505000000001976a9140389035a9225b3839e2bbf32d826a1e222031fd888ac00000000";

fn from_hex(hex: &str) -> Vec<u8> {
    (0..hex.len() / 2).map(|i| u8::from_str_radix(&hex[2 * i..2 * i + 2], 16).unwrap()).collect()
}

/// The transaction of the `bitcoin` crate in the types of this library
fn from_outside(tx: &bitcoin::Transaction) -> Transaction {
    let input = tx.input.iter().map(|input| TxIn {
        previous_output: OutPoint {
            txid: Txid(bitcoin::hashes::Hash::into_inner(input.previous_output.txid)),
            vout: input.previous_output.vout,
        },
        script_sig: input.script_sig.to_bytes(),
        sequence: input.sequence.0,
        witness: input.witness.to_vec(),
    });
    let output = tx.output.iter().map(|output| TxOut {
        value: output.value,
        script_pubkey: output.script_pubkey.to_bytes(),
    });
    Transaction {
        version: tx.version,
        lock_time: tx.lock_time.0,
        input: input.collect(),
        output: output.collect(),
    }
}

fn parse(hex: &str) -> Transaction {
    from_outside(&bitcoin::consensus::deserialize(&from_hex(hex)).unwrap())
}

fn segwit_tx() -> Transaction {
    parse(SEGWIT_TX)
}

fn legacy_tx() -> Transaction {
    parse(LEGACY_TX)
}

const ADDRESS: [u16; 8] = [0, 0, 0, 0, 0, 0xffff, 0x0a00, 0x0001];

/// What a peer with these services says of itself
fn their_version(services: u64) -> VersionMessage {
    let address = Address { services: ServiceFlags(services), address: ADDRESS, port: 1 };
    VersionMessage {
        version: 70015,
        services: ServiceFlags(services),
        timestamp: 5,
        receiver: address,
        sender: address,
        nonce: 6,
        user_agent: "/them/".to_owned(),
        start_height: 7,
        relay: false,
    }
}

/// A peer with these services on regtest
fn peer(services: u64) -> Peer {
    let (_, state) = Peer::from_stream(Network::Regtest, 0, ADDRESS, 8333);
    let state = state.on_sent(true).unwrap();
    let state = state.on_received(NetworkMessage::Version(their_version(services))).unwrap();
    let (_, state) = state.on_received(NetworkMessage::Verack).unwrap();
    state.on_sent(true).unwrap()
}

/// A block of two transactions
fn block() -> Block {
    let header = BlockHeader {
        version: 1,
        prev_blockhash: BlockHash([1; 32]),
        merkle_root: [2; 32],
        time: 3,
        bits: 4,
        nonce: 5,
    };
    Block { header, txdata: vec![legacy_tx(), segwit_tx()] }
}

#[test]
fn greeting_says_who_we_are() {
    let (raw, _) = greet_with_nonce(Network::Bitcoin, 1700000000, ADDRESS, 8333, 42);
    assert_eq!(
        raw,
        frame(
            Network::Bitcoin,
            NetworkMessage::Version(VersionMessage {
                version: 70016,
                services: ServiceFlags(8),
                timestamp: 1700000000,
                receiver: Address { services: ServiceFlags(8), address: ADDRESS, port: 8333 },
                sender: Address { services: ServiceFlags(8), address: [0; 8], port: 0 },
                nonce: 42,
                user_agent: "/Satoshi:23.0.0/".to_owned(),
                start_height: 0,
                relay: true,
            })
        )
    );
}

#[test]
fn greetings_have_fresh_nonces() {
    let nonces: Vec<u64> = (0..4)
        .map(|_| match Peer::from_stream(Network::Bitcoin, 0, ADDRESS, 8333).0.payload {
            NetworkMessage::Version(version) => version.nonce,
            _ => panic!("no version"),
        })
        .collect();
    assert!(nonces.iter().any(|nonce| *nonce != nonces[0]));
}

#[test]
fn handshake_ends_in_a_peer() {
    let (_, state) = Peer::from_stream(Network::Signet, 0, ADDRESS, 8333);
    let state = state.on_sent(true).unwrap();
    assert_eq!(state.awaits().command, "version");
    assert_eq!(state.awaits().timeout_secs, None);
    let state = state.on_received(NetworkMessage::Version(their_version(1))).unwrap();
    assert_eq!(state.awaits().command, "verack");
    assert_eq!(state.awaits().timeout_secs, None);
    let (raw, state) = state.on_received(NetworkMessage::Verack).unwrap();
    assert_eq!(raw, frame(Network::Signet, NetworkMessage::Verack));
    let peer = state.on_sent(true).unwrap();
    assert_eq!(peer.get_network(), Network::Signet);
    assert_eq!(peer.get_version(), &their_version(1));
}

#[test]
fn handshake_fails_where_a_send_fails() {
    let (_, state) = Peer::from_stream(Network::Signet, 0, ADDRESS, 8333);
    assert!(matches!(state.on_sent(false), Err(NetworkingError::DataCorruption)));

    let (_, state) = Peer::from_stream(Network::Signet, 0, ADDRESS, 8333);
    let state = state.on_sent(true).unwrap();
    let state = state.on_received(NetworkMessage::Version(their_version(1))).unwrap();
    let (_, state) = state.on_received(NetworkMessage::Verack).unwrap();
    assert!(matches!(state.on_sent(false), Err(NetworkingError::DataCorruption)));
}

#[test]
fn handshake_fails_on_other_messages() {
    let (_, state) = Peer::from_stream(Network::Signet, 0, ADDRESS, 8333);
    let state = state.on_sent(true).unwrap();
    assert!(matches!(
        state.on_received(NetworkMessage::Verack),
        Err(NetworkingError::InvalidResponse)
    ));

    let (_, state) = Peer::from_stream(Network::Signet, 0, ADDRESS, 8333);
    let state = state.on_sent(true).unwrap();
    let state = state.on_received(NetworkMessage::Version(their_version(1))).unwrap();
    assert!(matches!(
        state.on_received(NetworkMessage::Version(their_version(1))),
        Err(NetworkingError::InvalidResponse)
    ));
}

#[test]
fn messages_go_out_on_the_network_of_the_peer() {
    let raw = peer(0).send(NetworkMessage::Ping(9));
    assert_eq!(raw, frame(Network::Regtest, NetworkMessage::Ping(9)));
}

#[test]
fn outcome_of_a_send() {
    assert!(matches!(send_result(true), Ok(())));
    assert!(matches!(send_result(false), Err(NetworkingError::DataCorruption)));
}

#[test]
fn peer_looks_into_its_inbox() {
    let peer = peer(0);
    let mut inbox = Inbox::new();
    assert!(peer.is_connected(&inbox));
    inbox.deliver(NetworkMessage::Pong(2));
    assert!(matches!(
        peer.recv(&mut inbox, "pong", None, false),
        RecvStep::Done(Some(NetworkMessage::Pong(2)))
    ));
    let timeout = Some(Duration::from_secs(1));
    assert!(matches!(peer.recv(&mut inbox, "pong", timeout, false), RecvStep::Wait(Some(_))));
    assert!(matches!(peer.recv(&mut inbox, "pong", timeout, true), RecvStep::Done(None)));
    inbox.disconnect();
    assert!(!peer.is_connected(&inbox));
}

#[test]
fn block_is_asked_for_with_its_witnesses() {
    let hash = BlockHash([5; 32]);
    let (raw, state) = peer(0).get_block(hash);
    let items = vec![Inventory::WitnessBlock(hash)];
    assert_eq!(raw, frame(Network::Regtest, NetworkMessage::GetData(items)));
    let state = state.on_sent(true).unwrap();
    assert_eq!(state.awaits().command, "block");
    assert_eq!(state.awaits().timeout_secs, Some(30));
    let answer = Some(NetworkMessage::Block(block()));
    assert_eq!(state.on_received(answer).unwrap(), Some(block()));
}

#[test]
fn block_request_can_fail() {
    let hash = BlockHash([5; 32]);
    let (_, state) = peer(0).get_block(hash);
    assert!(matches!(state.on_sent(false), Err(NetworkingError::DataCorruption)));

    let (_, state) = peer(0).get_block(hash);
    assert!(matches!(state.on_sent(true).unwrap().on_received(None), Ok(None)));

    let (_, state) = peer(0).get_block(hash);
    assert!(matches!(
        state.on_sent(true).unwrap().on_received(Some(NetworkMessage::Pong(1))),
        Err(NetworkingError::InvalidResponse)
    ));
}

#[test]
fn mempool_is_asked_of_bloom_peers_only() {
    for services in vec![0, 1, 8, 11] {
        assert!(matches!(
            peer(services).ask_for_mempool(),
            Err(NetworkingError::PeerBloomDisabled)
        ));
    }
    for services in vec![4, 5, 12, u64::MAX] {
        let (raw, _) = peer(services).ask_for_mempool().ok().unwrap();
        assert_eq!(raw, frame(Network::Regtest, NetworkMessage::MemPool));
    }
}

#[test]
fn mempool_of_a_peer_is_fetched() {
    let mut mempool = Mempool::new();
    mempool.add_tx(legacy_tx());
    let (_, state) = peer(4).ask_for_mempool().ok().unwrap();
    let state = state.on_sent(true).unwrap();
    assert_eq!(state.awaits().command, "inv");
    assert_eq!(state.awaits().timeout_secs, Some(5));
    let wanted = Inventory::Transaction(segwit_tx().txid());
    let items = vec![
        Inventory::Transaction(legacy_tx().txid()),
        wanted,
        Inventory::WitnessTransaction(segwit_tx().txid()),
        Inventory::WTx(segwit_tx().wtxid()),
    ];
    let (raw, state) =
        state.on_received(Some(&mempool), Some(NetworkMessage::Inv(items))).ok().unwrap().unwrap();
    assert_eq!(raw, frame(Network::Regtest, NetworkMessage::GetData(vec![wanted])));
    match state.on_sent(true).ok().unwrap() {
        Fetch::Done => panic!("a transaction is missing"),
        Fetch::Awaiting(state) => {
            assert_eq!(state.awaits().command, "tx");
            assert_eq!(state.awaits().timeout_secs, Some(30));
            let answer = Some(NetworkMessage::Tx(segwit_tx()));
            assert!(matches!(state.on_received(Some(&mut mempool), answer), Ok(Fetch::Done)));
        }
    }
    assert!(mempool.has_tx(&segwit_tx().txid()));
    assert!(mempool.has_tx(&legacy_tx().txid()));
}

#[test]
fn as_many_transactions_are_awaited_as_were_asked_for() {
    let mut mempool = Mempool::new();
    let (_, state) = peer(4).ask_for_mempool().ok().unwrap();
    let items = vec![
        Inventory::Transaction(legacy_tx().txid()),
        Inventory::Transaction(segwit_tx().txid()),
    ];
    let (_, state) = state
        .on_sent(true)
        .unwrap()
        .on_received(Some(&mempool), Some(NetworkMessage::Inv(items)))
        .ok()
        .unwrap()
        .unwrap();
    let mut fetch = state.on_sent(true).ok().unwrap();
    let mut answers = vec![NetworkMessage::Tx(segwit_tx()), NetworkMessage::Tx(legacy_tx())];
    while let Fetch::Awaiting(state) = fetch {
        fetch = state.on_received(Some(&mut mempool), answers.pop()).ok().unwrap();
    }
    assert!(answers.is_empty());
    assert_eq!(mempool.iter_txs().len(), 2);
}

#[test]
fn fetch_of_nothing_is_done() {
    let mempool = Mempool::new();
    let (_, state) = peer(4).ask_for_mempool().ok().unwrap();
    let (raw, state) = state
        .on_sent(true)
        .unwrap()
        .on_received(Some(&mempool), Some(NetworkMessage::Inv(vec![Inventory::Error])))
        .ok()
        .unwrap()
        .unwrap();
    assert_eq!(raw.payload, NetworkMessage::GetData(vec![]));
    assert!(matches!(state.on_sent(true), Ok(Fetch::Done)));
}

#[test]
fn silent_peer_has_an_empty_mempool() {
    let (_, state) = peer(4).ask_for_mempool().ok().unwrap();
    let state = state.on_sent(true).unwrap();
    assert!(matches!(state.on_received(Some(&Mempool::new()), None), Ok(None)));
}

#[test]
fn mempool_request_can_fail() {
    let mut mempool = Mempool::new();
    let (_, state) = peer(4).ask_for_mempool().ok().unwrap();
    assert!(matches!(state.on_sent(false), Err(NetworkingError::DataCorruption)));

    let (_, state) = peer(4).ask_for_mempool().ok().unwrap();
    assert!(matches!(
        state.on_sent(true).unwrap().on_received(Some(&mempool), Some(NetworkMessage::Verack)),
        Err(NetworkingError::InvalidResponse)
    ));

    let asked = |mempool: &Mempool| {
        let (_, state) = peer(4).ask_for_mempool().ok().unwrap();
        let items = vec![Inventory::Transaction(segwit_tx().txid())];
        let state = state.on_sent(true).unwrap();
        state.on_received(Some(mempool), Some(NetworkMessage::Inv(items))).ok().unwrap().unwrap().1
    };
    assert!(matches!(
        asked(&mempool).on_sent(false),
        Err(NetworkingError::DataCorruption)
    ));
    match asked(&mempool).on_sent(true) {
        Ok(Fetch::Awaiting(state)) => assert!(matches!(
            state.on_received(Some(&mut mempool), None),
            Err(NetworkingError::Timeout)
        )),
        _ => panic!("a transaction is missing"),
    }
    match asked(&mempool).on_sent(true) {
        Ok(Fetch::Awaiting(state)) => assert!(matches!(
            state.on_received(Some(&mut mempool), Some(NetworkMessage::MemPool)),
            Err(NetworkingError::InvalidResponse)
        )),
        _ => panic!("a transaction is missing"),
    }
    assert!(mempool.iter_txs().is_empty());
}

#[test]
fn broadcast_goes_into_the_mempool_and_out() {
    let mut mempool = Mempool::new();
    let raw = peer(0).broadcast_tx(Some(&mut mempool), legacy_tx());
    assert_eq!(raw, frame(Network::Regtest, NetworkMessage::Tx(legacy_tx())));
    assert_eq!(mempool.iter_txs(), vec![legacy_tx()]);
}

#[test]
fn requests_go_on_without_a_mempool() {
    let (_, state) = peer(4).ask_for_mempool().ok().unwrap();
    let items = vec![Inventory::Transaction(segwit_tx().txid())];
    let state = state.on_sent(true).unwrap();
    let answer = Some(NetworkMessage::Inv(items));
    let (raw, state) = state.on_received(None, answer).ok().unwrap().unwrap();
    let items = vec![Inventory::Transaction(segwit_tx().txid())];
    assert_eq!(raw.payload, NetworkMessage::GetData(items));
    match state.on_sent(true) {
        Ok(Fetch::Awaiting(state)) => {
            let answer = Some(NetworkMessage::Tx(segwit_tx()));
            assert!(matches!(state.on_received(None, answer), Ok(Fetch::Done)));
        }
        _ => panic!("a transaction is missing"),
    }
    let raw = peer(0).broadcast_tx(None, legacy_tx());
    assert_eq!(raw, frame(Network::Regtest, NetworkMessage::Tx(legacy_tx())));
}
