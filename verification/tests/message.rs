use bitcoin::consensus::serialize;
use bitcoin::network::constants::ServiceFlags as Flags;
use bitcoin::network::message as outside;
use bitcoin::network::message::NetworkMessage as Outside;
use bitpeer::networking::message::{
    frame, Inventory, Network, NetworkMessage, OtherMessage, RawNetworkMessage, ServiceFlags,
    SERVICE_BLOOM, SERVICE_WITNESS,
};
use bitpeer::primitives::{
    Block, BlockHash, BlockHeader, OutPoint, Transaction, TxIn, TxOut, Txid,
};

/// A transaction with a witness
const SEGWIT_TX: &str = "02000000000101595895ea20179de87052b4046dfe6fd515860505d6511a9004cf12a1f93cac7c0100000000ffffffff01deb807000000000017a9140f3444e271620c736808aa7b33e370bd87cb5a078702483045022100fb60dad8df4af2841adc0346638c16d0b8035f5e3f3753b88db122e70c79f9370220756e6633b17fd2710e626347d28d60b0a2d6cbb41de51740644b9fb3ba7751040121028fa937ca8cba2197a37c007176ed8941055d3bcb8627d085e94553e62f057dcc00000000";

/// A transaction without witnesses
const LEGACY_TX: &str = "0100000001a15d57094aa7a21a28cb20b59aab8fc7d1149a3bdbcddba9c622e4f5f6a99ece010000006c493046022100f93bb0e7d8db7bd46e40132d1f8242026e045f03a0efe71bbb8e3f475e970d790221009337cd7f1f929f00cc6ff01f03729b069a7c21b59b1736ddfee5db5946c5da8c0121033b9b137ee87d5a812d6f506efdd37f0affa7ffc310711c06c7f3e097c9447c52ffffffff0100e1f505000000001976a9140389035a9225b3839e2bbf32d826a1e222031fd888ac00000000";

fn from_hex(hex: &str) -> Vec<u8> {
    (0..hex.len() / 2).map(|i| u8::from_str_radix(&hex[2 * i..2 * i + 2], 16).unwrap()).collect()
}

/// The transaction of the `bitcoin` crate in the types of this library
fn from_outside(tx: &bitcoin::Transaction) -> Transaction {
    let input = tx.input.iter().map(|input| TxIn {
        previous_output: OutPoint {
            txid: Txid(bitcoin::hashes::Hash::into_inner(input.previous_output.txid)),
            vout: input.previous_output.vout,
        },
        script_sig: input.script_sig.to_bytes(),
        sequence: input.sequence.0,
        witness: input.witness.to_vec(),
    });
    let output = tx.output.iter().map(|output| TxOut {
        value: output.value,
        script_pubkey: output.script_pubkey.to_bytes(),
    });
    Transaction {
        version: tx.version,
        lock_time: tx.lock_time.0,
        input: input.collect(),
        output: output.collect(),
    }
}

fn parse(hex: &str) -> Transaction {
    from_outside(&bitcoin::consensus::deserialize(&from_hex(hex)).unwrap())
}

fn segwit_tx() -> Transaction {
    parse(SEGWIT_TX)
}

fn legacy_tx() -> Transaction {
    parse(LEGACY_TX)
}

fn outside_frame(payload: outside::NetworkMessage) -> Vec<u8> {
    serialize(&outside::RawNetworkMessage { magic: 0xD9B4BEF9, payload })
}

/// A block of two transactions
fn block() -> Block {
    let header = BlockHeader {
        version: 1,
        prev_blockhash: BlockHash([1; 32]),
        merkle_root: [2; 32],
        time: 3,
        bits: 4,
        nonce: 5,
    };
    Block { header, txdata: vec![legacy_tx(), segwit_tx()] }
}

#[test]
fn every_network_has_its_magic() {
    assert_eq!(Network::Bitcoin.magic(), 0xD9B4BEF9);
    assert_eq!(Network::Testnet.magic(), 0x0709110B);
    assert_eq!(Network::Signet.magic(), 0x40CF030A);
    assert_eq!(Network::Regtest.magic(), 0xDAB5BFFA);
}

#[test]
fn services_include_each_of_their_bits() {
    let both = ServiceFlags(SERVICE_BLOOM | SERVICE_WITNESS);
    assert!(both.has(ServiceFlags(SERVICE_BLOOM)));
    assert!(both.has(ServiceFlags(SERVICE_WITNESS)));
    assert!(both.has(both));
    assert!(both.has(ServiceFlags(0)));
    assert!(!ServiceFlags(SERVICE_WITNESS).has(ServiceFlags(SERVICE_BLOOM)));
    assert!(!ServiceFlags(SERVICE_WITNESS).has(both));
    assert!(!ServiceFlags(0).has(ServiceFlags(1)));
}

#[test]
fn service_bits_are_those_of_the_protocol() {
    assert_eq!(SERVICE_BLOOM, Flags::BLOOM.to_u64());
    assert_eq!(SERVICE_WITNESS, Flags::WITNESS.to_u64());
}

#[test]
fn commands_are_those_of_the_protocol() {
    let tx: bitcoin::Transaction =
        bitcoin::consensus::deserialize(&from_hex(SEGWIT_TX)).unwrap();
    let genesis = bitcoin::blockdata::constants::genesis_block(bitcoin::Network::Bitcoin);
    assert_eq!(NetworkMessage::Verack.cmd(), Outside::Verack.cmd());
    assert_eq!(NetworkMessage::Inv(vec![]).cmd(), Outside::Inv(vec![]).cmd());
    assert_eq!(NetworkMessage::GetData(vec![]).cmd(), Outside::GetData(vec![]).cmd());
    assert_eq!(NetworkMessage::NotFound(vec![]).cmd(), Outside::NotFound(vec![]).cmd());
    assert_eq!(NetworkMessage::MemPool.cmd(), Outside::MemPool.cmd());
    assert_eq!(NetworkMessage::Tx(legacy_tx()).cmd(), Outside::Tx(tx).cmd());
    assert_eq!(
        NetworkMessage::Block(block()).cmd(),
        Outside::Block(genesis).cmd()
    );
    assert_eq!(NetworkMessage::Ping(1).cmd(), Outside::Ping(1).cmd());
    assert_eq!(NetworkMessage::Pong(1).cmd(), Outside::Pong(1).cmd());
    assert_eq!(NetworkMessage::Alert(vec![]).cmd(), Outside::Alert(vec![]).cmd());
}

#[test]
fn other_messages_keep_frame_and_command() {
    for (payload, command) in vec![
        (outside::NetworkMessage::SendHeaders, "sendheaders"),
        (outside::NetworkMessage::FeeFilter(1000), "feefilter"),
        (outside::NetworkMessage::Headers(vec![]), "headers"),
        (outside::NetworkMessage::WtxidRelay, "wtxidrelay"),
    ] {
        let bytes = outside_frame(payload);
        let message = OtherMessage::from_frame(bytes.clone()).unwrap();
        assert_eq!(message.cmd(), command);
        assert_eq!(message.as_frame(), bytes.as_slice());
        assert_eq!(NetworkMessage::Other(message).cmd(), command);
    }
}

#[test]
fn command_of_a_message_that_nobody_knows_is_unknown() {
    let command = outside::CommandString::try_from_static("whatever").unwrap();
    let bytes = outside_frame(outside::NetworkMessage::Unknown { command, payload: vec![1] });
    assert_eq!(OtherMessage::from_frame(bytes).unwrap().cmd(), "unknown");
}

#[test]
fn frames_of_known_messages_are_no_other_messages() {
    for payload in vec![
        outside::NetworkMessage::Verack,
        outside::NetworkMessage::Inv(vec![]),
        outside::NetworkMessage::GetData(vec![]),
        outside::NetworkMessage::NotFound(vec![]),
        outside::NetworkMessage::MemPool,
        outside::NetworkMessage::Ping(5),
        outside::NetworkMessage::Pong(5),
        outside::NetworkMessage::Alert(vec![]),
    ] {
        assert_eq!(OtherMessage::from_frame(outside_frame(payload)), None);
    }
}

#[test]
fn bytes_that_are_no_message_are_no_other_message() {
    let mut bytes = outside_frame(outside::NetworkMessage::FeeFilter(1000));
    assert_eq!(OtherMessage::from_frame(vec![]), None);
    assert_eq!(OtherMessage::from_frame(bytes[1..].to_vec()), None);
    bytes.push(0);
    assert_eq!(OtherMessage::from_frame(bytes), None);
}

#[test]
fn frame_puts_the_magic_on_a_message() {
    let items = vec![Inventory::Transaction(segwit_tx().txid())];
    assert_eq!(
        frame(Network::Signet, NetworkMessage::Inv(items.clone())),
        RawNetworkMessage { magic: 0x40CF030A, payload: NetworkMessage::Inv(items) }
    );
}
