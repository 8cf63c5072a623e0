//! A Bitcoin peer

use std::time::Duration;

use vstd::prelude::*;

use crate::mempool::Mempool;
use crate::networking::error::NetworkingError;
use crate::networking::handshake::{greet, SendingVersion};
use crate::networking::inbox::{Inbox, RecvStep};
use crate::networking::message::{
    frame, Inventory, MessageView, Network, NetworkMessage, RawNetworkMessage, ServiceFlags,
    VersionMessage, VersionView, SERVICE_BLOOM,
};
use crate::networking::request::{SendingGetBlock, SendingMemPool};
use crate::primitives::{BlockHash, Transaction};

verus! {

/// How long a peer may take for a block or a transaction that it was asked for, in seconds
pub const TIMEOUT_SECS: u64 = 30;

/// How long a peer may take to say what is in its mempool, in seconds
pub const INV_TIMEOUT_SECS: u64 = 5;

/// A message to wait for
#[derive(Debug, Clone, Copy)]
pub struct Awaited {
    /// The command of the message
    pub command: &'static str,
    /// How long to wait for it at most, in seconds
    pub timeout_secs: Option<u64>,
}

/// The outcome of a send, of which `sent` tells whether the message could be written
pub fn send_result(sent: bool) -> (r: Result<(), NetworkingError>)
    ensures
        match r {
            Ok(()) => sent,
            Err(e) => !sent && e == NetworkingError::DataCorruption,
        },
{
    if sent {
        Ok(())
    } else {
        Err(NetworkingError::DataCorruption)
    }
}

/// A Bitcoin peer
///
/// What it sent and nobody asked for yet is in the [`Inbox`] of its connection.
#[derive(Debug)]
pub struct Peer {
    version: VersionMessage,
    network: Network,
}

impl Peer {
    /// The Bitcoin network in use
    pub closed spec fn network(self) -> Network {
        self.network
    }

    /// What the peer said of itself
    pub closed spec fn version(self) -> VersionView {
        self.version@
    }

    /// A peer that introduced itself with `version`
    pub(crate) fn new(network: Network, version: VersionMessage) -> (r: Peer)
        ensures
            r.network() == network,
            r.version() == version@,
    {
        Peer { version, network }
    }

    /// Begin the handshake with a peer on `network` that was reached at `address` and `port`,
    /// at a time given in seconds since the Unix epoch
    ///
    /// Gives the message to send and what comes after it.
    pub fn from_stream(network: Network, unix_secs: u64, address: [u16; 8], port: u16) -> (r: (
        RawNetworkMessage,
        SendingVersion,
    ))
        ensures
            exists|nonce: u64|
                r.0@ == crate::networking::message::framed(
                    network,
                    MessageView::Version(
                        #[trigger] crate::networking::handshake::greeting(
                            unix_secs,
                            address,
                            port,
                            nonce,
                        ),
                    ),
                ),
            r.1.network() == network,
            r.0.magic == crate::networking::message::network_magic(network),
            r.0.payload matches NetworkMessage::Version(v) && {
                &&& v.version == 70016
                &&& v.services == ServiceFlags(crate::networking::message::SERVICE_WITNESS)
                &&& v.timestamp == unix_secs as i64
                &&& v.receiver == (crate::networking::message::Address {
                    services: ServiceFlags(crate::networking::message::SERVICE_WITNESS),
                    address,
                    port,
                })
                &&& v.sender == (crate::networking::message::Address {
                    services: ServiceFlags(crate::networking::message::SERVICE_WITNESS),
                    address: [0u16, 0, 0, 0, 0, 0, 0, 0],
                    port: 0,
                })
                &&& v.user_agent@ == "/Satoshi:23.0.0/"@
                &&& v.start_height == 0
                &&& v.relay
            },
    {
        greet(network, unix_secs, address, port)
    }

    /// Return the `version` message sent by the peer
    pub fn get_version(&self) -> (version: &VersionMessage)
        ensures
            version@ == self.version(),
    {
        &self.version
    }

    /// Return the Bitcoin network in use
    pub fn get_network(&self) -> (network: Network)
        ensures
            network == self.network(),
    {
        self.network
    }

    /// Return whether or not the peer is still connected
    pub fn is_connected(&self, inbox: &Inbox) -> (connected: bool)
        ensures
            connected == inbox@.connected,
    {
        inbox.is_connected()
    }

    /// Send a raw Bitcoin message to the peer
    ///
    /// Gives what goes over the wire; [`send_result`] tells the outcome.
    pub fn send(&self, payload: NetworkMessage) -> (raw: RawNetworkMessage)
        ensures
            raw@ == crate::networking::message::framed(self.network(), payload@),
            raw.payload == payload,
            raw.magic == crate::networking::message::network_magic(self.network()),
    {
        frame(self.network, payload)
    }

    /// Waits for a specific incoming Bitcoin message, optionally with a timeout
    ///
    /// See [`Inbox::recv`].
    pub fn recv(
        &self,
        inbox: &mut Inbox,
        wait_for: &'static str,
        timeout: Option<Duration>,
        timed_out: bool,
    ) -> (step: RecvStep)
        ensures
            if timed_out && timeout is Some {
                &&& step == RecvStep::Done(None)
                &&& final(inbox)@ == old(inbox)@
            } else if old(inbox)@.queues[wait_for@].len() > 0 {
                &&& step matches RecvStep::Done(Some(message))
                &&& message@ == old(inbox)@.queues[wait_for@].last()
                &&& message@.command() == wait_for@
                &&& message@.valid()
                &&& final(inbox)@ == old(inbox)@.take(wait_for@)
            } else {
                &&& step == RecvStep::Wait(timeout)
                &&& final(inbox)@ == old(inbox)@
            },
            final(inbox)@.wf(),
    {
        inbox.recv(wait_for, timeout, timed_out)
    }
}

/// What can be had from a peer by naming it
///
/// Each request gives the message to send and what comes after it.
pub trait InvPeer {
    /// Ask for a block
    fn get_block(&self, block_hash: BlockHash) -> (RawNetworkMessage, SendingGetBlock);

    /// Ask for the transactions of the peer's mempool
    fn ask_for_mempool(&self) -> Result<(RawNetworkMessage, SendingMemPool), NetworkingError>;

    /// Put a transaction into the mempool and tell the peer of it
    ///
    /// Where the mempool cannot be had, `None`, the peer is told all the same.
    fn broadcast_tx(&self, mempool: Option<&mut Mempool>, tx: Transaction) -> RawNetworkMessage;
}

impl InvPeer for Peer {
    fn get_block(&self, block_hash: BlockHash) -> (r: (RawNetworkMessage, SendingGetBlock))
        ensures
            r.0@ == crate::networking::message::framed(
                self.network(),
                MessageView::GetData(seq![Inventory::WitnessBlock(block_hash)]),
            ),
    {
        let items = vec![Inventory::WitnessBlock(block_hash)];
        assert(items@ =~= seq![Inventory::WitnessBlock(block_hash)]);
        (self.send(NetworkMessage::GetData(items)), SendingGetBlock)
    }

    fn ask_for_mempool(&self) -> (r: Result<(RawNetworkMessage, SendingMemPool), NetworkingError>)
        ensures
            match r {
                Ok((raw, next)) => {
                    &&& self.version().services.includes(ServiceFlags(SERVICE_BLOOM))
                    &&& raw@ == crate::networking::message::framed(
                        self.network(),
                        MessageView::MemPool,
                    )
                    &&& next.network() == self.network()
                },
                Err(e) => {
                    &&& !self.version().services.includes(ServiceFlags(SERVICE_BLOOM))
                    &&& e == NetworkingError::PeerBloomDisabled
                },
            },
    {
        if !self.version.services.has(ServiceFlags(SERVICE_BLOOM)) {
            return Err(NetworkingError::PeerBloomDisabled);
        }
        Ok((self.send(NetworkMessage::MemPool), SendingMemPool::new(self.network)))
    }

    fn broadcast_tx(&self, mempool: Option<&mut Mempool>, tx: Transaction) -> (raw:
        RawNetworkMessage)
        ensures
            mempool matches Some(m) ==> final(m)@ == crate::mempool::seen_mut(mempool).add(tx@),
            raw@ == crate::networking::message::framed(self.network(), MessageView::Tx(tx@)),
    {
        if let Some(mempool) = mempool {
            mempool.add_tx(tx.clone());
        }
        self.send(NetworkMessage::Tx(tx))
    }
}

} // verus!
