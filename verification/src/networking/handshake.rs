//! How two peers introduce themselves
//!
//! Our `version` is sent, the peer's `version` and then its `verack` are awaited, and our
//! `verack` is sent. Each state below knows the one event that it waits for, and what comes
//! after it.

use vstd::prelude::*;

use crate::mempool::MempoolView;
use crate::networking::error::NetworkingError;
use crate::networking::message::{
    frame, Address, MessageView, Network, NetworkMessage, RawNetworkMessage, ServiceFlags,
    VersionMessage, VersionView, SERVICE_WITNESS,
};
use crate::networking::peer::{send_result, Awaited, Peer};

verus! {

/// The version of the protocol that is spoken here
pub const PROTOCOL_VERSION: u32 = 70016;

/// The `version` message by which a peer is greeted
pub open spec fn greeting(unix_secs: u64, address: [u16; 8], port: u16, nonce: u64) -> VersionView {
    let services = ServiceFlags(SERVICE_WITNESS);
    VersionView {
        version: PROTOCOL_VERSION,
        services,
        timestamp: unix_secs as i64,
        receiver: Address { services, address, port },
        sender: Address { services, address: [0u16, 0, 0, 0, 0, 0, 0, 0], port: 0 },
        nonce,
        user_agent: "/Satoshi:23.0.0/"@,
        start_height: 0,
        relay: true,
    }
}

/// `rand::Rng::gen` of `rand::thread_rng`. Of the number nothing is claimed: it is random.
#[verifier::external_body]
fn random_nonce() -> (nonce: u64) {
    rand::Rng::gen(&mut rand::thread_rng())
}

/// Our `version` is being sent.
pub struct SendingVersion {
    network: Network,
}

/// The peer's `version` is awaited.
pub struct AwaitingVersion {
    network: Network,
}

/// The peer's `verack` is awaited.
pub struct AwaitingVerack {
    network: Network,
    version: VersionMessage,
}

/// Our `verack` is being sent.
pub struct SendingVerack {
    network: Network,
    version: VersionMessage,
}

/// Greet a peer on `network` that was reached at `address` and `port`, at a time given in
/// seconds since the Unix epoch
///
/// Gives the message to send and what comes after it.
pub fn greet(network: Network, unix_secs: u64, address: [u16; 8], port: u16) -> (r: (
    RawNetworkMessage,
    SendingVersion,
))
    ensures
        exists|nonce: u64|
            r.0@ == crate::networking::message::framed(
                network,
                MessageView::Version(#[trigger] greeting(unix_secs, address, port, nonce)),
            ),
        r.1.network() == network,
        r.0.magic == crate::networking::message::network_magic(network),
        r.0.payload matches NetworkMessage::Version(v) && {
            &&& v.version == 70016
            &&& v.services == ServiceFlags(SERVICE_WITNESS)
            &&& v.timestamp == unix_secs as i64
            &&& v.receiver == (Address {
                services: ServiceFlags(SERVICE_WITNESS),
                address,
                port,
            })
            &&& v.sender == (Address {
                services: ServiceFlags(SERVICE_WITNESS),
                address: [0u16, 0, 0, 0, 0, 0, 0, 0],
                port: 0,
            })
            &&& v.user_agent@ == "/Satoshi:23.0.0/"@
            &&& v.start_height == 0
            &&& v.relay
        },
{
    greet_with_nonce(network, unix_secs, address, port, random_nonce())
}

/// Greet a peer under a given nonce
pub fn greet_with_nonce(
    network: Network,
    unix_secs: u64,
    address: [u16; 8],
    port: u16,
    nonce: u64,
) -> (r: (RawNetworkMessage, SendingVersion))
    ensures
        r.0@ == crate::networking::message::framed(
            network,
            MessageView::Version(greeting(unix_secs, address, port, nonce)),
        ),
        r.1.network() == network,
        r.0.magic == crate::networking::message::network_magic(network),
        r.0.payload matches NetworkMessage::Version(v) && {
            &&& v.version == 70016
            &&& v.services == ServiceFlags(SERVICE_WITNESS)
            &&& v.timestamp == unix_secs as i64
            &&& v.receiver == (Address {
                services: ServiceFlags(SERVICE_WITNESS),
                address,
                port,
            })
            &&& v.sender == (Address {
                services: ServiceFlags(SERVICE_WITNESS),
                address: [0u16, 0, 0, 0, 0, 0, 0, 0],
                port: 0,
            })
            &&& v.nonce == nonce
            &&& v.user_agent@ == "/Satoshi:23.0.0/"@
            &&& v.start_height == 0
            &&& v.relay
        },
{
    let services = ServiceFlags(SERVICE_WITNESS);
    let version = VersionMessage {
        version: PROTOCOL_VERSION,
        services,
        timestamp: unix_secs as i64,
        receiver: Address { services, address, port },
        sender: Address { services, address: [0u16, 0, 0, 0, 0, 0, 0, 0], port: 0 },
        nonce,
        user_agent: "/Satoshi:23.0.0/".to_owned(),
        start_height: 0,
        relay: true,
    };
    (frame(network, NetworkMessage::Version(version)), SendingVersion { network })
}

impl SendingVersion {
    /// The network that the peer is on
    pub closed spec fn network(self) -> Network {
        self.network
    }

    /// Take note of whether our `version` could be sent
    pub fn on_sent(self, sent: bool) -> (r: Result<AwaitingVersion, NetworkingError>)
        ensures
            match r {
                Ok(next) => sent && next.network() == self.network(),
                Err(e) => !sent && e == NetworkingError::DataCorruption,
            },
    {
        match send_result(sent) {
            Ok(()) => Ok(AwaitingVersion { network: self.network }),
            Err(e) => Err(e),
        }
    }
}

impl AwaitingVersion {
    /// The network that the peer is on
    pub closed spec fn network(self) -> Network {
        self.network
    }

    /// What is awaited
    pub fn awaits(&self) -> (r: Awaited)
        ensures
            r.command@ == "version"@,
            r.timeout_secs is None,
    {
        Awaited { command: "version", timeout_secs: None }
    }

    /// Take the message that came
    pub fn on_received(self, message: NetworkMessage) -> (r: Result<
        AwaitingVerack,
        NetworkingError,
    >)
        ensures
            match r {
                Ok(next) => {
                    &&& message@ == MessageView::Version(next.version())
                    &&& next.network() == self.network()
                },
                Err(e) => message@ !is Version && e == NetworkingError::InvalidResponse,
            },
    {
        if let NetworkMessage::Version(version) = message {
            Ok(AwaitingVerack { network: self.network, version })
        } else {
            Err(NetworkingError::InvalidResponse)
        }
    }
}

impl AwaitingVerack {
    /// The network that the peer is on
    pub closed spec fn network(self) -> Network {
        self.network
    }

    /// The peer's `version`
    pub closed spec fn version(self) -> VersionView {
        self.version@
    }

    /// What is awaited
    pub fn awaits(&self) -> (r: Awaited)
        ensures
            r.command@ == "verack"@,
            r.timeout_secs is None,
    {
        Awaited { command: "verack", timeout_secs: None }
    }

    /// Take the message that came
    ///
    /// Gives our `verack` to send and what comes after it.
    pub fn on_received(self, message: NetworkMessage) -> (r: Result<
        (RawNetworkMessage, SendingVerack),
        NetworkingError,
    >)
        ensures
            match r {
                Ok((raw, next)) => {
                    &&& message@ is Verack
                    &&& raw@ == crate::networking::message::framed(
                        self.network(),
                        MessageView::Verack,
                    )
                    &&& next.network() == self.network()
                    &&& next.version() == self.version()
                },
                Err(e) => message@ !is Verack && e == NetworkingError::InvalidResponse,
            },
    {
        if let NetworkMessage::Verack = message {
            let raw = frame(self.network, NetworkMessage::Verack);
            Ok((raw, SendingVerack { network: self.network, version: self.version }))
        } else {
            Err(NetworkingError::InvalidResponse)
        }
    }
}

impl SendingVerack {
    /// The network that the peer is on
    pub closed spec fn network(self) -> Network {
        self.network
    }

    /// The peer's `version`
    pub closed spec fn version(self) -> VersionView {
        self.version@
    }

    /// Take note of whether our `verack` could be sent
    pub fn on_sent(self, sent: bool) -> (r: Result<Peer, NetworkingError>)
        ensures
            match r {
                Ok(peer) => {
                    &&& sent
                    &&& peer.network() == self.network()
                    &&& peer.version() == self.version()
                },
                Err(e) => !sent && e == NetworkingError::DataCorruption,
            },
    {
        match send_result(sent) {
            Ok(()) => Ok(Peer::new(self.network, self.version)),
            Err(e) => Err(e),
        }
    }
}

/// The reader keeps what a handshake waits for: a `version`, whatever it says, and a `verack`
/// are not answered, and each is kept under the command by which it is awaited.
pub proof fn law_introductions_are_kept(mempool: MempoolView, version: VersionView)
    ensures
        crate::networking::reader::replies(mempool, MessageView::Version(version)) == Seq::<
            MessageView,
        >::empty(),
        crate::networking::reader::kept(MessageView::Version(version)) == Some(
            MessageView::Version(version),
        ),
        MessageView::Version(version).command() == "version"@,
        crate::networking::reader::replies(mempool, MessageView::Verack) == Seq::<
            MessageView,
        >::empty(),
        crate::networking::reader::kept(MessageView::Verack) == Some(MessageView::Verack),
        MessageView::Verack.command() == "verack"@,
{
}

/// A greeting says who we are and where we think the peer is: that we speak the protocol in
/// version 70016, serve witnesses, know no block and want transactions announced, with the
/// given time, address, port and nonce.
pub proof fn law_greeting_introduces_us(
    unix_secs: u64,
    address: [u16; 8],
    port: u16,
    nonce: u64,
    i: int,
)
    ensures
        ({
            let v = greeting(unix_secs, address, port, nonce);
            &&& v.version == 70016
            &&& v.services == ServiceFlags(8)
            &&& unix_secs <= i64::MAX ==> v.timestamp == unix_secs
            &&& v.receiver.services == ServiceFlags(8)
            &&& v.receiver.address == address
            &&& v.receiver.port == port
            &&& v.sender.services == ServiceFlags(8)
            &&& 0 <= i < 8 ==> v.sender.address@[i] == 0
            &&& v.sender.port == 0
            &&& v.nonce == nonce
            &&& v.user_agent == "/Satoshi:23.0.0/"@
            &&& v.start_height == 0
            &&& v.relay
        }),
{
}

} // verus!
