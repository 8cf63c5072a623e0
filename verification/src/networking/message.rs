//! The messages that peers exchange

use vstd::prelude::*;

use crate::primitives::{
    Block, BlockHash, BlockView, Transaction, TransactionView, Txid, Wtxid,
};

verus! {

/// The chain that a peer is on
#[derive(Debug, Clone, Copy, PartialEq, Eq, Structural)]
pub enum Network {
    /// Classic Bitcoin
    Bitcoin,
    /// Bitcoin's testnet
    Testnet,
    /// Bitcoin's signet
    Signet,
    /// Bitcoin's regtest
    Regtest,
}

/// The number that opens every message on a network
pub open spec fn network_magic(network: Network) -> u32 {
    match network {
        Network::Bitcoin => 0xD9B4BEF9,
        Network::Testnet => 0x0709110B,
        Network::Signet => 0x40CF030A,
        Network::Regtest => 0xDAB5BFFA,
    }
}

/// `bitcoin::Network::magic`, which gives each of the four networks a fixed number
#[verifier::external_body]
fn outside_magic(network: Network) -> (magic: u32)
    ensures
        magic == network_magic(network),
{
    let network = match network {
        Network::Bitcoin => bitcoin::Network::Bitcoin,
        Network::Testnet => bitcoin::Network::Testnet,
        Network::Signet => bitcoin::Network::Signet,
        Network::Regtest => bitcoin::Network::Regtest,
    };
    network.magic()
}

impl Network {
    /// The number that opens every message on this network
    pub fn magic(self) -> (magic: u32)
        ensures
            magic == network_magic(self),
    {
        outside_magic(self)
    }
}

/// No two networks share their magic.
pub proof fn law_magic_tells_networks_apart(a: Network, b: Network)
    ensures
        network_magic(a) == network_magic(b) ==> a == b,
{
}

/// The service bit of a node that answers bloom-filtered requests, `mempool` among them
pub const SERVICE_BLOOM: u64 = 4;

/// The service bit of a node that serves witnesses
pub const SERVICE_WITNESS: u64 = 8;

/// The services that a node offers, one bit each
#[derive(Debug, Clone, Copy, PartialEq, Eq, Structural)]
pub struct ServiceFlags(pub u64);

/// `bitcoin::network::constants::ServiceFlags::has`: whether every bit of `flags` is set in
/// `services`
#[verifier::external_body]
fn outside_has(services: u64, flags: u64) -> (has: bool)
    ensures
        has == (services & flags == flags),
{
    let services = bitcoin::network::constants::ServiceFlags::from(services);
    services.has(bitcoin::network::constants::ServiceFlags::from(flags))
}

impl ServiceFlags {
    /// Whether every service of `flags` is among these
    pub open spec fn includes(self, flags: ServiceFlags) -> bool {
        self.0 & flags.0 == flags.0
    }

    /// Check whether every service of `flags` is among these
    pub fn has(self, flags: ServiceFlags) -> (has: bool)
        ensures
            has == self.includes(flags),
            has == (self.0 & flags.0 == flags.0),
    {
        outside_has(self.0, flags.0)
    }
}

/// Where a node can be reached, as a `version` message says it
#[derive(Debug, Clone, Copy, PartialEq, Eq)]
pub struct Address {
    /// Services of the node at this address
    pub services: ServiceFlags,
    /// IPv6 address, or IPv4-mapped IPv6 address
    pub address: [u16; 8],
    /// Network port
    pub port: u16,
}

/// The `version` message, by which a node introduces itself
#[derive(Debug, PartialEq, Eq)]
pub struct VersionMessage {
    /// The protocol version
    pub version: u32,
    /// The services of the sender
    pub services: ServiceFlags,
    /// When the message was sent, in seconds since the Unix epoch
    pub timestamp: i64,
    /// The address of the receiver
    pub receiver: Address,
    /// The address of the sender
    pub sender: Address,
    /// A random number by which a node finds out that it is connected to itself
    pub nonce: u64,
    /// The software of the sender
    pub user_agent: String,
    /// The height of the sender's chain
    pub start_height: i32,
    /// Whether the receiver should announce transactions to the sender
    pub relay: bool,
}

/// What a `version` message says
pub struct VersionView {
    pub version: u32,
    pub services: ServiceFlags,
    pub timestamp: i64,
    pub receiver: Address,
    pub sender: Address,
    pub nonce: u64,
    pub user_agent: Seq<char>,
    pub start_height: i32,
    pub relay: bool,
}

impl View for VersionMessage {
    type V = VersionView;

    open spec fn view(&self) -> VersionView {
        VersionView {
            version: self.version,
            services: self.services,
            timestamp: self.timestamp,
            receiver: self.receiver,
            sender: self.sender,
            nonce: self.nonce,
            user_agent: self.user_agent@,
            start_height: self.start_height,
            relay: self.relay,
        }
    }
}

/// An item that a peer announces or asks for
#[derive(Debug, Clone, Copy, PartialEq, Eq)]
pub enum Inventory {
    /// Nothing
    Error,
    /// A transaction, by its txid
    Transaction(Txid),
    /// A block
    Block(BlockHash),
    /// A compact block
    CompactBlock(BlockHash),
    /// A transaction, by its wtxid
    WTx(Wtxid),
    /// A transaction with its witnesses, by its txid
    WitnessTransaction(Txid),
    /// A block with its witnesses
    WitnessBlock(BlockHash),
    /// An item of a kind that is not known
    Unknown { inv_type: u32, hash: [u8; 32] },
}

/// The command of the message that `frame` is the encoding of, magic included; `None` where
/// it is the encoding of none
pub uninterp spec fn frame_command(frame: Seq<u8>) -> Option<Seq<char>>;

/// `bitcoin::network::message::RawNetworkMessage::cmd`, of the message that
/// `bitcoin::consensus::deserialize` reads from the frame. The result depends on the bytes
/// alone, and there is none exactly where the bytes are not read as one whole message.
#[verifier::external_body]
fn outside_command(frame: &[u8]) -> (command: Option<String>)
    ensures
        match command {
            Some(command) => frame_command(frame@) == Some(command@),
            None => frame_command(frame@) is None,
        },
{
    let raw: Option<bitcoin::network::message::RawNetworkMessage> =
        bitcoin::consensus::deserialize(frame).ok();
    raw.map(|raw| raw.cmd().to_owned())
}

/// The commands whose messages have a variant of their own in [`NetworkMessage`]
pub open spec fn is_known_command(command: Seq<char>) -> bool {
    ||| command == "version"@
    ||| command == "verack"@
    ||| command == "inv"@
    ||| command == "getdata"@
    ||| command == "notfound"@
    ||| command == "mempool"@
    ||| command == "tx"@
    ||| command == "block"@
    ||| command == "ping"@
    ||| command == "pong"@
    ||| command == "alert"@
}

/// Whether a frame holds a message that has no variant of its own
pub open spec fn is_other_frame(frame: Seq<u8>) -> bool {
    &&& frame_command(frame) is Some
    &&& !is_known_command(frame_command(frame).unwrap())
}

fn known_command(command: &String) -> (known: bool)
    ensures
        known == is_known_command(command@),
{
    *command == "version".to_owned() || *command == "verack".to_owned()
        || *command == "inv".to_owned() || *command == "getdata".to_owned()
        || *command == "notfound".to_owned() || *command == "mempool".to_owned()
        || *command == "tx".to_owned() || *command == "block".to_owned()
        || *command == "ping".to_owned() || *command == "pong".to_owned()
        || *command == "alert".to_owned()
}

/// A message that a peer keeps for its user and never looks into, held as the bytes that
/// came over the wire
#[derive(Debug, PartialEq, Eq)]
pub struct OtherMessage {
    frame: Vec<u8>,
    command: String,
}

impl View for OtherMessage {
    type V = Seq<u8>;

    closed spec fn view(&self) -> Seq<u8> {
        self.frame@
    }
}

impl OtherMessage {
    #[verifier::type_invariant]
    spec fn is_other(&self) -> bool {
        &&& is_other_frame(self.frame@)
        &&& frame_command(self.frame@) == Some(self.command@)
    }

    /// Take a message as it came over the wire
    ///
    /// There is none where the bytes are no message, or are one that has a variant of its own
    /// in [`NetworkMessage`].
    pub fn from_frame(frame: Vec<u8>) -> (r: Option<OtherMessage>)
        ensures
            r is Some <==> is_other_frame(frame@),
            r is Some <==> frame_command(frame@) is Some && !is_known_command(
                frame_command(frame@).unwrap(),
            ),
            r matches Some(message) ==> message@ == frame@,
    {
        match outside_command(frame.as_slice()) {
            None => None,
            Some(command) => {
                if known_command(&command) {
                    None
                } else {
                    Some(OtherMessage { frame, command })
                }
            },
        }
    }

    /// The message as it came over the wire
    pub fn as_frame(&self) -> (frame: &[u8])
        ensures
            frame@ == self@,
    {
        self.frame.as_slice()
    }

    /// The command of the message
    pub fn cmd(&self) -> (command: &str)
        ensures
            frame_command(self@) == Some(command@),
            !is_known_command(command@),
    {
        proof {
            use_type_invariant(self);
        }
        self.command.as_str()
    }
}

/// A message to or from a peer
#[derive(Debug, PartialEq, Eq)]
pub enum NetworkMessage {
    /// A node introduces itself
    Version(VersionMessage),
    /// The introduction was accepted
    Verack,
    /// Items that the sender has
    Inv(Vec<Inventory>),
    /// Items that the sender wants
    GetData(Vec<Inventory>),
    /// Items that were wanted and that the sender does not have
    NotFound(Vec<Inventory>),
    /// The sender wants to know what is in the mempool
    MemPool,
    /// A transaction
    Tx(Transaction),
    /// A block
    Block(Block),
    /// The sender wants a `pong` with the same number
    Ping(u64),
    /// The answer to a `ping`
    Pong(u64),
    /// A retired kind of notice
    Alert(Vec<u8>),
    /// Any other message
    Other(OtherMessage),
}

/// What a message says
pub enum MessageView {
    Version(VersionView),
    Verack,
    Inv(Seq<Inventory>),
    GetData(Seq<Inventory>),
    NotFound(Seq<Inventory>),
    MemPool,
    Tx(TransactionView),
    Block(BlockView),
    Ping(u64),
    Pong(u64),
    Alert(Seq<u8>),
    Other(Seq<u8>),
}

impl View for NetworkMessage {
    type V = MessageView;

    open spec fn view(&self) -> MessageView {
        match *self {
            NetworkMessage::Version(version) => MessageView::Version(version@),
            NetworkMessage::Verack => MessageView::Verack,
            NetworkMessage::Inv(items) => MessageView::Inv(items@),
            NetworkMessage::GetData(items) => MessageView::GetData(items@),
            NetworkMessage::NotFound(items) => MessageView::NotFound(items@),
            NetworkMessage::MemPool => MessageView::MemPool,
            NetworkMessage::Tx(tx) => MessageView::Tx(tx@),
            NetworkMessage::Block(block) => MessageView::Block(block@),
            NetworkMessage::Ping(nonce) => MessageView::Ping(nonce),
            NetworkMessage::Pong(nonce) => MessageView::Pong(nonce),
            NetworkMessage::Alert(bytes) => MessageView::Alert(bytes@),
            NetworkMessage::Other(other) => MessageView::Other(other@),
        }
    }
}

impl MessageView {
    /// The command of the message
    pub open spec fn command(self) -> Seq<char> {
        match self {
            MessageView::Version(_) => "version"@,
            MessageView::Verack => "verack"@,
            MessageView::Inv(_) => "inv"@,
            MessageView::GetData(_) => "getdata"@,
            MessageView::NotFound(_) => "notfound"@,
            MessageView::MemPool => "mempool"@,
            MessageView::Tx(_) => "tx"@,
            MessageView::Block(_) => "block"@,
            MessageView::Ping(_) => "ping"@,
            MessageView::Pong(_) => "pong"@,
            MessageView::Alert(_) => "alert"@,
            MessageView::Other(frame) => frame_command(frame).unwrap(),
        }
    }

    /// Whether the message can occur: one without a variant of its own is no other
    pub open spec fn valid(self) -> bool {
        self matches MessageView::Other(frame) ==> is_other_frame(frame)
    }
}

impl NetworkMessage {
    /// The command of the message
    pub fn cmd(&self) -> (command: &str)
        ensures
            command@ == self@.command(),
            self@.valid(),
    {
        match self {
            NetworkMessage::Version(_) => "version",
            NetworkMessage::Verack => "verack",
            NetworkMessage::Inv(_) => "inv",
            NetworkMessage::GetData(_) => "getdata",
            NetworkMessage::NotFound(_) => "notfound",
            NetworkMessage::MemPool => "mempool",
            NetworkMessage::Tx(_) => "tx",
            NetworkMessage::Block(_) => "block",
            NetworkMessage::Ping(_) => "ping",
            NetworkMessage::Pong(_) => "pong",
            NetworkMessage::Alert(_) => "alert",
            NetworkMessage::Other(other) => other.cmd(),
        }
    }
}

/// The command of a message that can occur tells its variant.
pub proof fn law_command_tells_kind(m: MessageView)
    ensures
        m.valid() ==> {
            &&& m.command() == "version"@ <==> m is Version
            &&& m.command() == "verack"@ <==> m is Verack
            &&& m.command() == "inv"@ <==> m is Inv
            &&& m.command() == "getdata"@ <==> m is GetData
            &&& m.command() == "notfound"@ <==> m is NotFound
            &&& m.command() == "mempool"@ <==> m is MemPool
            &&& m.command() == "tx"@ <==> m is Tx
            &&& m.command() == "block"@ <==> m is Block
            &&& m.command() == "ping"@ <==> m is Ping
            &&& m.command() == "pong"@ <==> m is Pong
            &&& m.command() == "alert"@ <==> m is Alert
            &&& !is_known_command(m.command()) <==> m is Other
        },
{
    reveal_strlit("version");
    reveal_strlit("verack");
    reveal_strlit("inv");
    reveal_strlit("getdata");
    reveal_strlit("notfound");
    reveal_strlit("mempool");
    reveal_strlit("tx");
    reveal_strlit("block");
    reveal_strlit("ping");
    reveal_strlit("pong");
    reveal_strlit("alert");
    let c = m.command();
    assert(c == "version"@ ==> c[0] == 'v' && c[3] == 's');
    assert(c == "verack"@ ==> c[0] == 'v' && c[3] == 'a');
    assert(c == "inv"@ ==> c[0] == 'i');
    assert(c == "getdata"@ ==> c[0] == 'g');
    assert(c == "notfound"@ ==> c[0] == 'n');
    assert(c == "mempool"@ ==> c[0] == 'm');
    assert(c == "tx"@ ==> c[0] == 't');
    assert(c == "block"@ ==> c[0] == 'b');
    assert(c == "ping"@ ==> c[0] == 'p' && c[1] == 'i');
    assert(c == "pong"@ ==> c[0] == 'p' && c[1] == 'o');
    assert(c == "alert"@ ==> c[0] == 'a');
}

/// A message as it goes over the wire: under the magic of a network
#[derive(Debug, PartialEq, Eq)]
pub struct RawNetworkMessage {
    /// The magic of the network that the message is meant for
    pub magic: u32,
    /// The message itself
    pub payload: NetworkMessage,
}

/// What a message and its magic say
pub struct RawView {
    pub magic: u32,
    pub payload: MessageView,
}

impl View for RawNetworkMessage {
    type V = RawView;

    open spec fn view(&self) -> RawView {
        RawView { magic: self.magic, payload: self.payload@ }
    }
}

/// A message under the magic of `network`
pub open spec fn framed(network: Network, payload: MessageView) -> RawView {
    RawView { magic: network_magic(network), payload }
}

/// Put a message under the magic of `network`
pub fn frame(network: Network, payload: NetworkMessage) -> (raw: RawNetworkMessage)
    ensures
        raw@ == framed(network, payload@),
        raw.payload == payload,
        raw.magic == network_magic(network),
{
    RawNetworkMessage { magic: network.magic(), payload }
}

/// Putting a message under the magic of a network leaves the message as it is, and tells the
/// network.
pub proof fn law_framing_keeps_the_message(network: Network, payload: MessageView)
    ensures
        framed(network, payload).payload == payload,
        framed(network, payload).magic == network_magic(network),
{
}

/// Two messages that go out alike are the same message on the same network.
pub proof fn law_framing_is_injective(a: Network, b: Network, x: MessageView, y: MessageView)
    ensures
        framed(a, x) == framed(b, y) ==> a == b && x == y,
{
    law_framing_keeps_the_message(a, x);
    law_framing_keeps_the_message(b, y);
    law_magic_tells_networks_apart(a, b);
}

/// What a message says is what it holds.
pub proof fn law_message_says_what_it_holds(message: NetworkMessage)
    ensures
        message matches NetworkMessage::Version(x) ==> message@ == MessageView::Version(x@),
        message is Verack ==> message@ == MessageView::Verack,
        message matches NetworkMessage::Inv(x) ==> message@ == MessageView::Inv(x@),
        message matches NetworkMessage::GetData(x) ==> message@ == MessageView::GetData(x@),
        message matches NetworkMessage::NotFound(x) ==> message@ == MessageView::NotFound(x@),
        message is MemPool ==> message@ == MessageView::MemPool,
        message matches NetworkMessage::Tx(x) ==> message@ == MessageView::Tx(x@),
        message matches NetworkMessage::Block(x) ==> message@ == MessageView::Block(x@),
        message matches NetworkMessage::Ping(x) ==> message@ == MessageView::Ping(x),
        message matches NetworkMessage::Pong(x) ==> message@ == MessageView::Pong(x),
        message matches NetworkMessage::Alert(x) ==> message@ == MessageView::Alert(x@),
        message matches NetworkMessage::Other(x) ==> message@ == MessageView::Other(x@),
{
}

/// What a message under a magic says is its magic and what the message says.
pub proof fn law_raw_message_says_what_it_holds(raw: RawNetworkMessage)
    ensures
        raw@.magic == raw.magic,
        raw@.payload == raw.payload@,
{
}

/// What a `version` message says is what it holds, field by field.
pub proof fn law_version_says_what_it_holds(version: VersionMessage)
    ensures
        version@.version == version.version,
        version@.services == version.services,
        version@.timestamp == version.timestamp,
        version@.receiver == version.receiver,
        version@.sender == version.sender,
        version@.nonce == version.nonce,
        version@.user_agent == version.user_agent@,
        version@.start_height == version.start_height,
        version@.relay == version.relay,
{
}

/// Services include others exactly where no bit of the others is missing. They include two
/// sets of services exactly where they include both, and always themselves and none.
pub proof fn law_services_include_every_bit(s: ServiceFlags, a: ServiceFlags, b: ServiceFlags)
    ensures
        s.includes(a) <==> a.0 & !s.0 == 0,
        s.includes(ServiceFlags(a.0 | b.0)) <==> s.includes(a) && s.includes(b),
        s.includes(s),
        s.includes(ServiceFlags(0)),
{
    let (x, y, z) = (s.0, a.0, b.0);
    assert((x & y == y) <==> (y & !x == 0)) by (bit_vector);
    assert((x & (y | z) == (y | z)) <==> ((x & y == y) && (x & z == z))) by (bit_vector);
    assert(x & x == x) by (bit_vector);
    assert(x & 0 == 0) by (bit_vector);
}

/// A command is known exactly where some message that has a variant of its own has it.
pub proof fn law_known_commands_have_variants(command: Seq<char>)
    ensures
        is_known_command(command) <==> exists|m: MessageView|
            m !is Other && #[trigger] m.command() == command,
{
    if is_known_command(command) {
        let version: VersionView = arbitrary();
        let tx: TransactionView = arbitrary();
        let block: BlockView = arbitrary();
        assert(MessageView::Version(version).command() == "version"@);
        assert(MessageView::Verack.command() == "verack"@);
        assert(MessageView::Inv(seq![]).command() == "inv"@);
        assert(MessageView::GetData(seq![]).command() == "getdata"@);
        assert(MessageView::NotFound(seq![]).command() == "notfound"@);
        assert(MessageView::MemPool.command() == "mempool"@);
        assert(MessageView::Tx(tx).command() == "tx"@);
        assert(MessageView::Block(block).command() == "block"@);
        assert(MessageView::Ping(0).command() == "ping"@);
        assert(MessageView::Pong(0).command() == "pong"@);
        assert(MessageView::Alert(seq![]).command() == "alert"@);
    }
}

/// A frame is taken as another message exactly where it is a message and none with a variant
/// of its own has its command. It then has the command of its frame.
pub proof fn law_other_messages_have_no_variant(frame: Seq<u8>)
    ensures
        is_other_frame(frame) <==> frame_command(frame) is Some && forall|m: MessageView|
            m !is Other ==> #[trigger] m.command() != frame_command(frame).unwrap(),
        MessageView::Other(frame).valid() <==> is_other_frame(frame),
        frame_command(frame) matches Some(command) ==> MessageView::Other(frame).command()
            == command,
{
    if frame_command(frame) is Some {
        law_known_commands_have_variants(frame_command(frame).unwrap());
    }
}

/// Every message that has a variant of its own can occur.
pub proof fn law_messages_with_variants_can_occur(m: MessageView)
    ensures
        m !is Other ==> m.valid() && is_known_command(m.command()),
{
}

} // verus!
