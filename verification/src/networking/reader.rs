//! What is done with each message that comes in
//!
//! A [`Reader`] takes the messages of a connection one at a time. To each it gives the
//! [`ReaderStep`] to perform: the sends that answer the message, and then what becomes of the
//! message itself.

use std::collections::VecDeque;

use vstd::prelude::*;

use crate::mempool::{Mempool, MempoolView};
use crate::networking::inbox::InboxView;
use crate::networking::message::{
    frame, Inventory, MessageView, Network, NetworkMessage, RawNetworkMessage, RawView,
};
use crate::primitives::TransactionView;

verus! {

/// Whether an item names a transaction
pub open spec fn is_tx_item(item: Inventory) -> bool {
    item is Transaction || item is WitnessTransaction || item is WTx
}

/// Of the items that a peer has, those to ask it for
pub open spec fn wanted(items: Seq<Inventory>) -> Seq<Inventory> {
    items.filter(|item: Inventory| is_tx_item(item))
}

/// The `tx` message for an item that the mempool has
pub open spec fn tx_message(mempool: MempoolView, item: Inventory) -> Option<MessageView> {
    match mempool.lookup(item) {
        Some(tx) => Some(MessageView::Tx(tx)),
        None => None,
    }
}

/// The `tx` messages for those items that the mempool has
pub open spec fn found(mempool: MempoolView, items: Seq<Inventory>) -> Seq<MessageView> {
    items.filter_map(|item: Inventory| tx_message(mempool, item))
}

/// The items that the mempool does not have
pub open spec fn missing(mempool: MempoolView, items: Seq<Inventory>) -> Seq<Inventory> {
    items.filter(|item: Inventory| mempool.lookup(item) is None)
}

/// The messages that answer a `getdata`: the transactions that are there, then the list of
/// those that are not, unless it is empty
pub open spec fn getdata_replies(mempool: MempoolView, items: Seq<Inventory>) -> Seq<
    MessageView,
> {
    if missing(mempool, items).len() > 0 {
        found(mempool, items).push(MessageView::NotFound(missing(mempool, items)))
    } else {
        found(mempool, items)
    }
}

/// The messages that answer a message, in the order in which they are sent
pub open spec fn replies(mempool: MempoolView, message: MessageView) -> Seq<MessageView> {
    match message {
        MessageView::Ping(nonce) => seq![MessageView::Pong(nonce)],
        MessageView::Inv(items) => seq![MessageView::GetData(wanted(items))],
        MessageView::GetData(items) => getdata_replies(mempool, items),
        _ => seq![],
    }
}

/// What is kept of a message for whoever waits for its command
pub open spec fn kept(message: MessageView) -> Option<MessageView> {
    match message {
        MessageView::Ping(_) => None,
        MessageView::Alert(_) => None,
        _ => Some(message),
    }
}

/// The mempool after a message
pub open spec fn mempool_after(mempool: MempoolView, message: MessageView) -> MempoolView {
    match message {
        MessageView::Tx(tx) => mempool.add(tx),
        _ => mempool,
    }
}

/// What a list of messages says
pub open spec fn views(messages: Seq<NetworkMessage>) -> Seq<MessageView> {
    messages.map_values(|message: NetworkMessage| message@)
}

/// Whether an item names a transaction
pub fn names_tx(item: &Inventory) -> (r: bool)
    ensures
        r == is_tx_item(*item),
{
    match item {
        Inventory::Error
        | Inventory::Block(_)
        | Inventory::WitnessBlock(_)
        | Inventory::CompactBlock(_)
        | Inventory::Unknown { .. } => false,
        Inventory::Transaction(_) | Inventory::WitnessTransaction(_) | Inventory::WTx(_) => true,
    }
}

/// Of the items that a peer has, pick those to ask it for
fn pick_wanted(items: &Vec<Inventory>) -> (r: Vec<Inventory>)
    ensures
        r@ == wanted(items@),
{
    let mut r: Vec<Inventory> = Vec::new();
    assert(wanted(items@.take(0)) =~= Seq::<Inventory>::empty()) by {
        reveal(Seq::filter);
    }
    for i in 0..items.len()
        invariant
            r@ == wanted(items@.take(i as int)),
    {
        proof {
            reveal(Seq::filter);
            assert(items@.take(i + 1).drop_last() =~= items@.take(i as int));
        }
        if names_tx(&items[i]) {
            r.push(items[i]);
        }
    }
    assert(items@.take(items.len() as int) =~= items@);
    r
}

/// Answer a `getdata` from the mempool
fn answer_getdata(mempool: Option<&Mempool>, items: &Vec<Inventory>) -> (r: VecDeque<
    NetworkMessage,
>)
    ensures
        views(r@) == getdata_replies(crate::mempool::seen(mempool), items@),
{
    let ghost contents = crate::mempool::seen(mempool);
    let mut r: VecDeque<NetworkMessage> = VecDeque::new();
    let mut not_found: Vec<Inventory> = Vec::new();
    proof {
        reveal(Seq::filter);
        assert(items@.take(0) =~= Seq::<Inventory>::empty());
        assert(views(r@) =~= found(contents, items@.take(0)));
        assert(not_found@ =~= missing(contents, items@.take(0)));
    }
    for i in 0..items.len()
        invariant
            contents == crate::mempool::seen(mempool),
            views(r@) == found(contents, items@.take(i as int)),
            not_found@ == missing(contents, items@.take(i as int)),
    {
        let ghost before = r@;
        proof {
            reveal(Seq::filter);
            assert(items@.take(i + 1).drop_last() =~= items@.take(i as int));
        }
        let found_tx = match mempool {
            Some(mempool) => mempool.get_tx(&items[i]),
            None => None,
        };
        match found_tx {
            Some(tx) => {
                r.push_back(NetworkMessage::Tx(tx));
                assert(views(r@) =~= views(before) + seq![MessageView::Tx(tx@)]);
            },
            None => {
                not_found.push(items[i]);
            },
        }
    }
    assert(items@.take(items.len() as int) =~= items@);
    if !not_found.is_empty() {
        let ghost before = r@;
        r.push_back(NetworkMessage::NotFound(not_found));
        assert(views(r@) =~= views(before).push(MessageView::NotFound(not_found@)));
    }
    r
}

/// What to do next for a connection
pub enum ReaderStep {
    /// Read the next message and hand it to the reader
    Read(Reader),
    /// Send a message and report how that went
    Send(RawNetworkMessage, Replying),
    /// Keep a message for whoever waits for its command, then read the next one
    Deliver(NetworkMessage, Reader),
    /// Stop reading: the connection is lost
    Disconnect,
}

/// What a step asks for
///
/// After `Send` stand the messages that are still to be sent and the message that is kept
/// when they are.
pub enum StepView {
    Read,
    Send(RawView, Seq<MessageView>, Option<MessageView>),
    Deliver(MessageView),
    Disconnect,
}

impl ReaderStep {
    /// What the step asks for, on a connection to `network`
    pub open spec fn says(self, network: Network, step: StepView) -> bool {
        match self {
            ReaderStep::Read(reader) => step == StepView::Read && reader.network() == network,
            ReaderStep::Send(raw, replying) => {
                &&& step == StepView::Send(raw@, replying.rest(), replying.incoming())
                &&& replying.network() == network
            },
            ReaderStep::Deliver(message, reader) => {
                &&& step == StepView::Deliver(message@)
                &&& reader.network() == network
            },
            ReaderStep::Disconnect => step == StepView::Disconnect,
        }
    }
}

/// The step of a connection to `network` on which `replies` are still to be sent before
/// `incoming` is kept
pub open spec fn next_step(
    network: Network,
    replies: Seq<MessageView>,
    incoming: Option<MessageView>,
) -> StepView {
    if replies.len() > 0 {
        StepView::Send(
            crate::networking::message::framed(network, replies[0]),
            replies.skip(1),
            incoming,
        )
    } else {
        match incoming {
            Some(message) => StepView::Deliver(message),
            None => StepView::Read,
        }
    }
}

/// The step of a connection to `network` on which `raw` has come in
pub open spec fn step_on_message(network: Network, mempool: MempoolView, raw: RawView) -> StepView {
    if raw.magic != crate::networking::message::network_magic(network) {
        StepView::Read
    } else {
        next_step(network, replies(mempool, raw.payload), kept(raw.payload))
    }
}

/// The step of a connection to `network` after a send, of which `sent` tells whether it
/// succeeded
pub open spec fn step_on_sent(
    network: Network,
    rest: Seq<MessageView>,
    incoming: Option<MessageView>,
    sent: bool,
) -> StepView {
    if sent {
        next_step(network, rest, incoming)
    } else {
        StepView::Disconnect
    }
}

/// A connection on which the next message is to be read
pub struct Reader {
    network: Network,
}

/// A connection on which a message is being answered
pub struct Replying {
    network: Network,
    rest: VecDeque<NetworkMessage>,
    incoming: Option<NetworkMessage>,
}

/// The step of a connection on which `rest` are still to be sent before `incoming` is kept
fn proceed(
    network: Network,
    rest: VecDeque<NetworkMessage>,
    incoming: Option<NetworkMessage>,
) -> (step: ReaderStep)
    ensures
        step.says(
            network,
            next_step(
                network,
                views(rest@),
                match incoming {
                    Some(message) => Some(message@),
                    None => None,
                },
            ),
        ),
{
    let mut rest = rest;
    let ghost before = rest@;
    match rest.pop_front() {
        Some(reply) => {
            assert(views(rest@) =~= views(before).skip(1));
            assert(views(before)[0] == reply@);
            ReaderStep::Send(frame(network, reply), Replying { network, rest, incoming })
        },
        None => match incoming {
            Some(message) => ReaderStep::Deliver(message, Reader { network }),
            None => ReaderStep::Read(Reader { network }),
        },
    }
}

impl Reader {
    /// The network that the connection is to
    pub closed spec fn network(self) -> Network {
        self.network
    }

    /// Begin to read a connection
    pub fn new(network: Network) -> (r: Reader)
        ensures
            r.network() == network,
    {
        Reader { network }
    }

    /// Take the next message, `None` where none could be read
    ///
    /// Messages of other networks are dropped. A `ping` is answered and an `alert` dropped,
    /// neither is kept. A `tx` goes into the mempool, of the items of an `inv` the
    /// transactions are asked for, and a `getdata` is answered from the mempool; these
    /// messages and all others are kept.
    ///
    /// Where the mempool cannot be had, `None`, nothing is found in it and a `tx` is only kept
    /// as a message.
    pub fn on_message(
        self,
        mempool: Option<&mut Mempool>,
        message: Option<RawNetworkMessage>,
    ) -> (step: ReaderStep)
        ensures
            match message {
                None => {
                    &&& step is Disconnect
                    &&& mempool matches Some(m) ==> final(m)@ == crate::mempool::seen_mut(mempool)
                },
                Some(raw) => {
                    &&& step.says(
                        self.network(),
                        step_on_message(self.network(), crate::mempool::seen_mut(mempool), raw@),
                    )
                    &&& mempool matches Some(m) ==> final(m)@ == if raw.magic
                        == crate::networking::message::network_magic(self.network()) {
                        mempool_after(crate::mempool::seen_mut(mempool), raw.payload@)
                    } else {
                        crate::mempool::seen_mut(mempool)
                    }
                },
            },
            message matches Some(raw) ==> (raw.magic
                != crate::networking::message::network_magic(self.network()) ==> step is Read),
            message matches Some(raw) ==> (raw.magic
                == crate::networking::message::network_magic(self.network()) ==> match raw.payload@ {
                MessageView::Ping(nonce) => {
                    &&& step matches ReaderStep::Send(out, replying)
                    &&& out.magic == raw.magic
                    &&& out.payload@ == MessageView::Pong(nonce)
                    &&& replying.rest().len() == 0
                    &&& replying.incoming() is None
                },
                MessageView::Alert(_) => step is Read,
                MessageView::Inv(items) => {
                    &&& step matches ReaderStep::Send(out, replying)
                    &&& out.magic == raw.magic
                    &&& out.payload@ == MessageView::GetData(
                        items.filter(
                            |item: Inventory|
                                item is Transaction || item is WitnessTransaction || item is WTx,
                        ),
                    )
                    &&& replying.rest().len() == 0
                    &&& replying.incoming() == Some(raw.payload@)
                },
                MessageView::GetData(items) => if items.len() == 0 {
                    &&& step matches ReaderStep::Deliver(message, _)
                    &&& message@ == raw.payload@
                } else {
                    &&& step matches ReaderStep::Send(out, replying)
                    &&& out.magic == raw.magic
                    &&& replying.incoming() == Some(raw.payload@)
                },
                _ => {
                    &&& step matches ReaderStep::Deliver(message, _)
                    &&& message@ == raw.payload@
                },
            }),
    {
        let raw = match message {
            None => return ReaderStep::Disconnect,
            Some(raw) => raw,
        };
        if raw.magic != self.network.magic() {
            return ReaderStep::Read(self);
        }
        let in_message = raw.payload;
        let mut rest: VecDeque<NetworkMessage> = VecDeque::new();
        match &in_message {
            NetworkMessage::Ping(nonce) => {
                rest.push_back(NetworkMessage::Pong(*nonce));
                assert(views(rest@) =~= seq![MessageView::Pong(*nonce)]);
                return proceed(self.network, rest, None);
            },
            NetworkMessage::Alert(_) => {
                return ReaderStep::Read(self);
            },
            NetworkMessage::Tx(tx) => {
                if let Some(mempool) = mempool {
                    mempool.add_tx(tx.clone());
                }
                assert(views(rest@) =~= seq![]);
            },
            NetworkMessage::Inv(items) => {
                let get_data = pick_wanted(items);
                proof {
                    lemma_filter_agrees(
                        items@,
                        |item: Inventory| is_tx_item(item),
                        |item: Inventory|
                            item is Transaction || item is WitnessTransaction || item is WTx,
                    );
                }
                rest.push_back(NetworkMessage::GetData(get_data));
                assert(views(rest@) =~= seq![MessageView::GetData(wanted(items@))]);
            },
            NetworkMessage::GetData(items) => {
                proof {
                    law_getdata_answers_every_item(crate::mempool::seen_mut(mempool), items@);
                }
                rest = match mempool {
                    Some(mempool) => answer_getdata(Some(&*mempool), items),
                    None => answer_getdata(None, items),
                };
            },
            _ => {
                assert(views(rest@) =~= seq![]);
            },
        }
        proceed(self.network, rest, Some(in_message))
    }
}

impl Replying {
    /// The network that the connection is to
    pub closed spec fn network(self) -> Network {
        self.network
    }

    /// The messages that are still to be sent
    pub closed spec fn rest(self) -> Seq<MessageView> {
        views(self.rest@)
    }

    /// The message that is kept when all answers are sent
    pub closed spec fn incoming(self) -> Option<MessageView> {
        match self.incoming {
            Some(message) => Some(message@),
            None => None,
        }
    }

    /// Take note of whether the send succeeded
    pub fn on_sent(self, sent: bool) -> (step: ReaderStep)
        ensures
            step.says(
                self.network(),
                step_on_sent(self.network(), self.rest(), self.incoming(), sent),
            ),
            !sent ==> step is Disconnect,
            sent && self.rest().len() > 0 ==> {
                &&& step matches ReaderStep::Send(out, replying)
                &&& out.magic == crate::networking::message::network_magic(self.network())
                &&& out.payload@ == self.rest()[0]
                &&& replying.rest() == self.rest().skip(1)
                &&& replying.incoming() == self.incoming()
            },
            sent && self.rest().len() == 0 ==> match self.incoming() {
                Some(incoming) => step matches ReaderStep::Deliver(message, _) && message@
                    == incoming,
                None => step is Read,
            },
    {
        if sent {
            proceed(self.network, self.rest, self.incoming)
        } else {
            ReaderStep::Disconnect
        }
    }
}

/// A `ping` is answered with a `pong` of the same number, and is not kept.
pub proof fn law_ping_is_answered(network: Network, mempool: MempoolView, nonce: u64)
    ensures
        step_on_message(
            network,
            mempool,
            crate::networking::message::framed(network, MessageView::Ping(nonce)),
        ) == StepView::Send(
            crate::networking::message::framed(network, MessageView::Pong(nonce)),
            seq![],
            None,
        ),
        step_on_sent(network, seq![], None, true) == StepView::Read,
{
    assert(seq![MessageView::Pong(nonce)].skip(1) =~= Seq::<MessageView>::empty());
}

/// An `alert` is dropped: it is not answered, not kept, and leaves the mempool as it was.
pub proof fn law_alert_is_dropped(network: Network, mempool: MempoolView, notice: Seq<u8>)
    ensures
        step_on_message(
            network,
            mempool,
            crate::networking::message::framed(network, MessageView::Alert(notice)),
        ) == StepView::Read,
        mempool_after(mempool, MessageView::Alert(notice)) == mempool,
{
}

/// What was sent on another network is dropped.
pub proof fn law_other_networks_are_ignored(
    network: Network,
    other: Network,
    mempool: MempoolView,
    message: MessageView,
)
    requires
        other != network,
    ensures
        step_on_message(
            network,
            mempool,
            crate::networking::message::framed(other, message),
        ) == StepView::Read,
{
    crate::networking::message::law_magic_tells_networks_apart(network, other);
}

/// Whatever does not open with the magic of the network is dropped.
pub proof fn law_other_magics_are_ignored(network: Network, mempool: MempoolView, raw: RawView)
    requires
        raw.magic != crate::networking::message::network_magic(network),
    ensures
        step_on_message(network, mempool, raw) == StepView::Read,
{
}

/// What is sent, and what is kept in the end, when every send of a message's answer succeeds
pub open spec fn transcript(
    network: Network,
    replies: Seq<MessageView>,
    incoming: Option<MessageView>,
) -> (Seq<RawView>, Option<MessageView>)
    decreases replies.len(),
{
    match next_step(network, replies, incoming) {
        StepView::Send(raw, rest, then_kept) => {
            if rest.len() < replies.len() {
                let (sent, in_the_end) = transcript(network, rest, then_kept);
                (seq![raw] + sent, in_the_end)
            } else {
                (seq![], None)
            }
        },
        StepView::Deliver(message) => (seq![], Some(message)),
        _ => (seq![], None),
    }
}

/// When every send succeeds, all answers go out, each once and in order, and the message is
/// kept after the last of them.
pub proof fn law_all_replies_are_sent(
    network: Network,
    replies: Seq<MessageView>,
    incoming: Option<MessageView>,
)
    ensures
        transcript(network, replies, incoming) == (
            replies.map_values(
                |reply: MessageView| crate::networking::message::framed(network, reply),
            ),
            incoming,
        ),
    decreases replies.len(),
{
    let framing = |reply: MessageView| crate::networking::message::framed(network, reply);
    if replies.len() > 0 {
        law_all_replies_are_sent(network, replies.skip(1), incoming);
        assert(seq![framing(replies[0])] + replies.skip(1).map_values(framing)
            =~= replies.map_values(framing));
    } else {
        assert(replies.map_values(framing) =~= Seq::<RawView>::empty());
    }
}

/// Of an `inv` the transactions are asked for, and nothing else.
pub proof fn law_inv_asks_for_transactions(items: Seq<Inventory>, item: Inventory)
    ensures
        wanted(items).contains(item) <==> items.contains(item) && is_tx_item(item),
{
    let pred = |item: Inventory| is_tx_item(item);
    if wanted(items).contains(item) {
        items.lemma_filter_contains_rev(pred, item);
        let i = choose|i: int| 0 <= i < wanted(items).len() && wanted(items)[i] == item;
        items.lemma_filter_pred(pred, i);
    }
    if items.contains(item) && is_tx_item(item) {
        let i = choose|i: int| 0 <= i < items.len() && items[i] == item;
        items.lemma_filter_contains(pred, i);
    }
}

/// Every item of a `getdata` is answered once: with its transaction, or by being listed as
/// not found.
pub proof fn law_getdata_answers_every_item(mempool: MempoolView, items: Seq<Inventory>)
    ensures
        found(mempool, items).len() + missing(mempool, items).len() == items.len(),
        forall|i: int|
            0 <= i < items.len() ==> match mempool.lookup(#[trigger] items[i]) {
                Some(tx) => found(mempool, items).contains(MessageView::Tx(tx)),
                None => missing(mempool, items).contains(items[i]),
            },
    decreases items.len(),
{
    reveal(Seq::filter);
    if items.len() > 0 {
        let rest = items.drop_last();
        law_getdata_answers_every_item(mempool, rest);
        assert forall|i: int| 0 <= i < items.len() implies match mempool.lookup(
            #[trigger] items[i],
        ) {
            Some(tx) => found(mempool, items).contains(MessageView::Tx(tx)),
            None => missing(mempool, items).contains(items[i]),
        } by {
            let f = found(mempool, items);
            let n = missing(mempool, items);
            if i == items.len() - 1 {
                match mempool.lookup(items[i]) {
                    Some(tx) => {
                        assert(f[f.len() - 1] == MessageView::Tx(tx));
                    },
                    None => {
                        assert(n[n.len() - 1] == items[i]);
                    },
                }
            } else {
                assert(items[i] == rest[i]);
                match mempool.lookup(rest[i]) {
                    Some(tx) => {
                        let j = choose|j: int|
                            0 <= j < found(mempool, rest).len() && found(mempool, rest)[j]
                                == MessageView::Tx(tx);
                        assert(f[j] == MessageView::Tx(tx));
                    },
                    None => {
                        let j = choose|j: int|
                            0 <= j < missing(mempool, rest).len() && missing(mempool, rest)[j]
                                == rest[i];
                        assert(n[j] == items[i]);
                    },
                }
            }
        }
    }
}

/// Nothing but what the mempool has is sent in answer to a `getdata`.
pub proof fn law_getdata_sends_only_the_mempool(
    mempool: MempoolView,
    items: Seq<Inventory>,
    tx: TransactionView,
)
    ensures
        getdata_replies(mempool, items).contains(MessageView::Tx(tx)) ==> exists|i: int|
            0 <= i < items.len() && mempool.lookup(#[trigger] items[i]) == Some(tx),
    decreases items.len(),
{
    let replies = getdata_replies(mempool, items);
    if replies.contains(MessageView::Tx(tx)) {
        let k = choose|k: int| 0 <= k < replies.len() && replies[k] == MessageView::Tx(tx);
        assert(found(mempool, items)[k] == MessageView::Tx(tx));
        lemma_found_is_looked_up(mempool, items, k);
    }
}

proof fn lemma_found_is_looked_up(mempool: MempoolView, items: Seq<Inventory>, k: int)
    requires
        0 <= k < found(mempool, items).len(),
    ensures
        exists|i: int|
            0 <= i < items.len() && tx_message(mempool, #[trigger] items[i]) == Some(
                found(mempool, items)[k],
            ),
    decreases items.len(),
{
    if items.len() > 0 {
        let rest = items.drop_last();
        let last = items.len() - 1;
        if k < found(mempool, rest).len() {
            lemma_found_is_looked_up(mempool, rest, k);
            let i = choose|i: int|
                0 <= i < rest.len() && tx_message(mempool, #[trigger] rest[i]) == Some(
                    found(mempool, rest)[k],
                );
            assert(items[i] == rest[i]);
        } else {
            assert(tx_message(mempool, items[last]) is Some);
        }
    }
}

/// A transaction that one peer has reaches another that it is announced to: the `inv` is
/// answered with a `getdata` for it, that with exactly its `tx`, and the other puts it into its
/// own mempool.
pub proof fn law_transaction_reaches_peer(
    theirs: MempoolView,
    ours: MempoolView,
    item: Inventory,
    tx: TransactionView,
)
    requires
        theirs.lookup(item) == Some(tx),
    ensures
        replies(ours, MessageView::Inv(seq![item])) == seq![MessageView::GetData(seq![item])],
        replies(theirs, MessageView::GetData(seq![item])) == seq![MessageView::Tx(tx)],
        mempool_after(ours, MessageView::Tx(tx)).by_txid(crate::primitives::txid_of(tx)) == Some(
            tx,
        ),
        kept(MessageView::Tx(tx)) == Some(MessageView::Tx(tx)),
{
    let items = seq![item];
    reveal(Seq::filter);
    assert(items.drop_last() =~= Seq::<Inventory>::empty());
    assert(found(theirs, items.drop_last()) =~= Seq::<MessageView>::empty());
    assert(missing(theirs, items.drop_last()) =~= Seq::<Inventory>::empty());
    assert(wanted(items.drop_last()) =~= Seq::<Inventory>::empty());
    assert(wanted(items) =~= items);
    assert(found(theirs, items) =~= seq![MessageView::Tx(tx)]);
    assert(missing(theirs, items) =~= Seq::<Inventory>::empty());
}

/// No message takes a transaction out of the mempool.
pub proof fn law_messages_lose_no_transaction(
    mempool: MempoolView,
    message: MessageView,
    item: Inventory,
)
    ensures
        mempool.lookup(item) is Some ==> mempool_after(mempool, message).lookup(item) is Some,
{
}

/// What is sent of a message's answer, and the step after it, when `n` sends succeed and the
/// next one fails
pub open spec fn broken_transcript(
    network: Network,
    replies: Seq<MessageView>,
    incoming: Option<MessageView>,
    n: nat,
) -> (Seq<RawView>, StepView)
    decreases n,
{
    match next_step(network, replies, incoming) {
        StepView::Send(raw, rest, then_kept) => if n == 0 {
            (seq![], step_on_sent(network, rest, then_kept, false))
        } else {
            let (sent, end) = broken_transcript(network, rest, then_kept, (n - 1) as nat);
            (seq![raw] + sent, end)
        },
        step => (seq![], step),
    }
}

/// The first send that fails ends the connection: what was sent before it are the first
/// answers, and the message is not kept.
pub proof fn law_failed_send_disconnects(
    network: Network,
    replies: Seq<MessageView>,
    incoming: Option<MessageView>,
    n: nat,
)
    requires
        n < replies.len(),
    ensures
        broken_transcript(network, replies, incoming, n) == (
            replies.take(n as int).map_values(
                |reply: MessageView| crate::networking::message::framed(network, reply),
            ),
            StepView::Disconnect,
        ),
    decreases n,
{
    let framing = |reply: MessageView| crate::networking::message::framed(network, reply);
    if n == 0 {
        assert(replies.take(0).map_values(framing) =~= Seq::<RawView>::empty());
    } else {
        let rest = replies.skip(1);
        law_failed_send_disconnects(network, rest, incoming, (n - 1) as nat);
        assert(seq![framing(replies[0])] + rest.take(n - 1).map_values(framing)
            =~= replies.take(n as int).map_values(framing));
    }
}

/// What is sent for a message that came in, and what is kept of it, when every send succeeds
pub open spec fn handled(network: Network, mempool: MempoolView, raw: RawView) -> (
    Seq<RawView>,
    Option<MessageView>,
) {
    match step_on_message(network, mempool, raw) {
        StepView::Send(first, rest, incoming) => {
            let (sent, in_the_end) = transcript(network, rest, incoming);
            (seq![first] + sent, in_the_end)
        },
        StepView::Deliver(message) => (seq![], Some(message)),
        _ => (seq![], None),
    }
}

/// The answers to a message that came in, as they go over the wire
pub open spec fn framed_replies(network: Network, mempool: MempoolView, raw: RawView) -> Seq<
    RawView,
> {
    if raw.magic == crate::networking::message::network_magic(network) {
        replies(mempool, raw.payload).map_values(
            |reply: MessageView| crate::networking::message::framed(network, reply),
        )
    } else {
        seq![]
    }
}

/// What is kept of a message that came in
pub open spec fn kept_of(network: Network, raw: RawView) -> Option<MessageView> {
    if raw.magic == crate::networking::message::network_magic(network) {
        kept(raw.payload)
    } else {
        None
    }
}

/// For a message that came in all its answers are sent, and then it is kept or not.
pub proof fn law_message_is_handled(network: Network, mempool: MempoolView, raw: RawView)
    ensures
        handled(network, mempool, raw) == (
            framed_replies(network, mempool, raw),
            kept_of(network, raw),
        ),
{
    if raw.magic == crate::networking::message::network_magic(network) {
        let all = replies(mempool, raw.payload);
        law_all_replies_are_sent(network, all, kept(raw.payload));
        assert(transcript(network, all, kept(raw.payload)) == handled(network, mempool, raw));
    }
}

/// What a connection has done and seen
pub struct ConnectionView {
    /// The mempool
    pub mempool: MempoolView,
    /// All that was sent, in that order
    pub sent: Seq<RawView>,
    /// What was kept
    pub inbox: InboxView,
}

impl ConnectionView {
    /// The connection to `network` after a message came in and every send succeeded
    pub open spec fn on(self, network: Network, raw: RawView) -> ConnectionView {
        let (sent, in_the_end) = handled(network, self.mempool, raw);
        ConnectionView {
            mempool: if raw.magic == crate::networking::message::network_magic(network) {
                mempool_after(self.mempool, raw.payload)
            } else {
                self.mempool
            },
            sent: self.sent + sent,
            inbox: match in_the_end {
                Some(message) => self.inbox.deliver(message),
                None => self.inbox,
            },
        }
    }

    /// The connection to `network` after some messages came in and every send succeeded
    pub open spec fn after(self, network: Network, messages: Seq<RawView>) -> ConnectionView
        decreases messages.len(),
    {
        if messages.len() == 0 {
            self
        } else {
            self.after(network, messages.drop_last()).on(network, messages.last())
        }
    }
}

/// The transactions among some messages to `network`
pub open spec fn transactions(network: Network, messages: Seq<RawView>) -> Seq<TransactionView> {
    messages.filter_map(
        |raw: RawView|
            if raw.magic == crate::networking::message::network_magic(network) {
                match raw.payload {
                    MessageView::Tx(tx) => Some(tx),
                    _ => None,
                }
            } else {
                None
            },
    )
}

/// What is kept under a command of some messages to `network`
pub open spec fn kept_under(network: Network, messages: Seq<RawView>, command: Seq<char>) -> Seq<
    MessageView,
> {
    messages.filter_map(
        |raw: RawView|
            match kept_of(network, raw) {
                Some(message) if message.command() == command => Some(message),
                _ => None,
            },
    )
}

/// Over any messages the mempool gets their transactions, in the order in which they came,
/// and nothing else.
pub proof fn law_run_adds_transactions(
    network: Network,
    connection: ConnectionView,
    messages: Seq<RawView>,
)
    ensures
        connection.after(network, messages).mempool == connection.mempool.add_all(
            transactions(network, messages),
        ),
    decreases messages.len(),
{
    if messages.len() > 0 {
        let rest = messages.drop_last();
        law_run_adds_transactions(network, connection, rest);
        let earlier = transactions(network, rest);
        let all = transactions(network, messages);
        if all.len() > earlier.len() {
            assert(all.drop_last() =~= earlier);
        } else {
            assert(all =~= earlier);
        }
    } else {
        assert(transactions(network, messages) =~= Seq::<TransactionView>::empty());
    }
}

/// Over any messages what is sent are the answers to each in turn, from the mempool as it is
/// when the message comes in.
pub proof fn law_run_sends_replies(
    network: Network,
    connection: ConnectionView,
    messages: Seq<RawView>,
    i: int,
)
    requires
        0 <= i < messages.len(),
    ensures
        connection.after(network, messages.take(i + 1)).sent == connection.after(
            network,
            messages.take(i),
        ).sent + framed_replies(
            network,
            connection.mempool.add_all(transactions(network, messages.take(i))),
            messages[i],
        ),
{
    let before = connection.after(network, messages.take(i));
    assert(messages.take(i + 1).drop_last() =~= messages.take(i));
    law_run_adds_transactions(network, connection, messages.take(i));
    law_message_is_handled(network, before.mempool, messages[i]);
}

/// What was sent stays sent: over any messages nothing is taken back.
pub proof fn law_run_only_sends_more(
    network: Network,
    connection: ConnectionView,
    messages: Seq<RawView>,
    i: int,
)
    requires
        0 <= i <= messages.len(),
    ensures
        connection.after(network, messages.take(i)).sent.is_prefix_of(
            connection.after(network, messages).sent,
        ),
    decreases messages.len(),
{
    if i == messages.len() {
        assert(messages.take(i) =~= messages);
    } else {
        let rest = messages.drop_last();
        law_run_only_sends_more(network, connection, rest, i);
        assert(rest.take(i) =~= messages.take(i));
        let earlier = connection.after(network, messages.take(i)).sent;
        let later = connection.after(network, rest).sent;
        let all = connection.after(network, messages).sent;
        assert(later =~= all.subrange(0, later.len() as int));
        assert(earlier =~= all.subrange(0, earlier.len() as int));
    }
}

/// Over any messages every `ping` of the network is answered with its `pong`.
pub proof fn law_run_answers_pings(
    network: Network,
    connection: ConnectionView,
    messages: Seq<RawView>,
    i: int,
    nonce: u64,
)
    requires
        0 <= i < messages.len(),
        messages[i] == crate::networking::message::framed(network, MessageView::Ping(nonce)),
    ensures
        connection.after(network, messages).sent.contains(
            crate::networking::message::framed(network, MessageView::Pong(nonce)),
        ),
{
    let pong = crate::networking::message::framed(network, MessageView::Pong(nonce));
    law_run_sends_replies(network, connection, messages, i);
    law_run_only_sends_more(network, connection, messages, i + 1);
    let sent = connection.after(network, messages.take(i + 1)).sent;
    assert(sent[sent.len() - 1] == pong);
    assert(connection.after(network, messages).sent[sent.len() - 1] == pong);
}

/// Over any messages what waits under a command are the messages that are kept under it, all
/// of them and in the order in which they came, after what waited there before.
pub proof fn law_run_keeps_messages(
    network: Network,
    connection: ConnectionView,
    messages: Seq<RawView>,
    command: Seq<char>,
)
    ensures
        connection.after(network, messages).inbox.queues[command]
            == connection.inbox.queues[command] + kept_under(network, messages, command),
        connection.after(network, messages).inbox.connected == connection.inbox.connected,
    decreases messages.len(),
{
    let before = connection.inbox.queues[command];
    if messages.len() > 0 {
        let rest = messages.drop_last();
        let c = connection.after(network, rest);
        law_run_keeps_messages(network, connection, rest, command);
        law_message_is_handled(network, c.mempool, messages.last());
        let earlier = kept_under(network, rest, command);
        let all = kept_under(network, messages, command);
        match kept_of(network, messages.last()) {
            Some(message) if message.command() == command => {
                assert(all =~= earlier.push(message));
                assert(before + all =~= (before + earlier).push(message));
            },
            _ => {
                assert(all =~= earlier);
            },
        }
    } else {
        assert(before + kept_under(network, messages, command) =~= before);
    }
}

/// Over any messages nothing ever comes to wait under `ping` or `alert`.
pub proof fn law_run_keeps_no_ping_or_alert(
    network: Network,
    connection: ConnectionView,
    messages: Seq<RawView>,
)
    requires
        forall|i: int| 0 <= i < messages.len() ==> (#[trigger] messages[i]).payload.valid(),
    ensures
        connection.after(network, messages).inbox.queues["ping"@]
            == connection.inbox.queues["ping"@],
        connection.after(network, messages).inbox.queues["alert"@]
            == connection.inbox.queues["alert"@],
    decreases messages.len(),
{
    if messages.len() > 0 {
        let rest = messages.drop_last();
        let last = messages[messages.len() - 1];
        assert forall|i: int| 0 <= i < rest.len() implies (
        #[trigger] rest[i]).payload.valid() by {
            assert(rest[i] == messages[i]);
        }
        law_run_keeps_no_ping_or_alert(network, connection, rest);
        law_message_is_handled(network, connection.after(network, rest).mempool, last);
        crate::networking::message::law_command_tells_kind(last.payload);
    }
}

proof fn lemma_filter_agrees<A>(s: Seq<A>, p: spec_fn(A) -> bool, q: spec_fn(A) -> bool)
    requires
        forall|x: A| #[trigger] p(x) == q(x),
    ensures
        s.filter(p) == s.filter(q),
    decreases s.len(),
{
    reveal(Seq::filter);
    if s.len() > 0 {
        lemma_filter_agrees(s.drop_last(), p, q);
        assert(p(s.last()) == q(s.last()));
    }
}

proof fn lemma_filter_counts<A>(s: Seq<A>, p: spec_fn(A) -> bool, x: A)
    ensures
        s.filter(p).to_multiset().count(x) == if p(x) {
            s.to_multiset().count(x)
        } else {
            0
        },
    decreases s.len(),
{
    broadcast use vstd::seq_lib::group_to_multiset_ensures;

    reveal(Seq::filter);
    if s.len() > 0 {
        lemma_filter_counts(s.drop_last(), p, x);
        assert(s =~= s.drop_last().push(s.last()));
    } else {
        assert(s.filter(p) =~= s);
        assert(!s.contains(x));
    }
}

/// An item names a transaction exactly where there could be a mempool that has it. Those are
/// the items with a txid or a wtxid.
pub proof fn law_transactions_are_named_by_their_ids(item: Inventory)
    ensures
        is_tx_item(item) <==> exists|m: MempoolView| #[trigger] m.lookup(item) is Some,
        is_tx_item(item) <==> match item {
            Inventory::Transaction(_) => true,
            Inventory::WitnessTransaction(_) => true,
            Inventory::WTx(_) => true,
            Inventory::Error => false,
            Inventory::Block(_) => false,
            Inventory::CompactBlock(_) => false,
            Inventory::WitnessBlock(_) => false,
            Inventory::Unknown { .. } => false,
        },
{
    let tx: TransactionView = arbitrary();
    match item {
        Inventory::Transaction(txid) => {
            let m = MempoolView { txs: map![txid@ => tx], wtxids: Map::empty() };
            assert(m.lookup(item) is Some);
        },
        Inventory::WitnessTransaction(txid) => {
            let m = MempoolView { txs: map![txid@ => tx], wtxids: Map::empty() };
            assert(m.lookup(item) is Some);
        },
        Inventory::WTx(wtxid) => {
            let m = MempoolView { txs: map![wtxid@ => tx], wtxids: map![wtxid@ => wtxid@] };
            assert(m.lookup(item) is Some);
        },
        _ => {},
    }
}

/// An `inv` of any length is answered with one `getdata`, which names every item that is a
/// transaction as often as the `inv` does, and nothing else.
pub proof fn law_inv_is_answered_whole(
    mempool: MempoolView,
    items: Seq<Inventory>,
    item: Inventory,
)
    ensures
        replies(mempool, MessageView::Inv(items)).len() == 1,
        replies(mempool, MessageView::Inv(items))[0] matches MessageView::GetData(asked)
            && asked.to_multiset().count(item) == if item is Transaction || item
            is WitnessTransaction || item is WTx {
            items.to_multiset().count(item)
        } else {
            0
        },
{
    lemma_filter_counts(items, |item: Inventory| is_tx_item(item), item);
}

/// The answer to an `inv` keeps the order of its items: what is asked for after two
/// announcements made as one is what is asked for after the first and then what is asked for
/// after the second. A single item is asked for exactly where it is a transaction.
pub proof fn law_inv_is_answered_in_order(
    mempool: MempoolView,
    a: Seq<Inventory>,
    b: Seq<Inventory>,
    item: Inventory,
)
    ensures
        replies(mempool, MessageView::Inv(a))[0] matches MessageView::GetData(x) && replies(
            mempool,
            MessageView::Inv(b),
        )[0] matches MessageView::GetData(y) && replies(mempool, MessageView::Inv(a + b))
            == seq![MessageView::GetData(x + y)],
        replies(mempool, MessageView::Inv(seq![item])) == seq![
            MessageView::GetData(
                if item is Transaction || item is WitnessTransaction || item is WTx {
                    seq![item]
                } else {
                    seq![]
                },
            ),
        ],
        replies(mempool, MessageView::Inv(seq![])) == seq![MessageView::GetData(seq![])],
{
    let pred = |item: Inventory| is_tx_item(item);
    Seq::filter_distributes_over_add(a, b, pred);
    reveal(Seq::filter);
    let one = seq![item];
    assert(one.drop_last() =~= Seq::<Inventory>::empty());
    assert(one.drop_last().filter(pred) =~= Seq::<Inventory>::empty());
    assert(wanted(one) =~= if is_tx_item(item) {
        seq![item]
    } else {
        seq![]
    });
    assert(wanted(Seq::<Inventory>::empty()) =~= seq![]);
}

/// A `getdata` is answered with the transaction of every item that the mempool has, one for
/// each such item and in their order, and then with one list of all the items that it does
/// not have, in their order, unless there are none.
pub proof fn law_getdata_is_answered_whole(mempool: MempoolView, items: Seq<Inventory>)
    ensures
        ({
            let there = items.filter(|item: Inventory| mempool.lookup(item) is Some);
            let absent = items.filter(|item: Inventory| mempool.lookup(item) is None);
            let r = replies(mempool, MessageView::GetData(items));
            &&& there.len() + absent.len() == items.len()
            &&& r.len() == there.len() + if absent.len() > 0 {
                1nat
            } else {
                0nat
            }
            &&& forall|k: int|
                0 <= k < there.len() ==> #[trigger] r[k] == MessageView::Tx(
                    mempool.lookup(there[k]).unwrap(),
                )
            &&& absent.len() > 0 ==> r.last() == MessageView::NotFound(absent)
        }),
{
    lemma_found_in_order(mempool, items);
    lemma_filter_splits(mempool, items);
}

proof fn lemma_filter_splits(mempool: MempoolView, items: Seq<Inventory>)
    ensures
        items.filter(|item: Inventory| mempool.lookup(item) is Some).len() + items.filter(
            |item: Inventory| mempool.lookup(item) is None,
        ).len() == items.len(),
    decreases items.len(),
{
    reveal(Seq::filter);
    if items.len() > 0 {
        lemma_filter_splits(mempool, items.drop_last());
    }
}

proof fn lemma_found_in_order(mempool: MempoolView, items: Seq<Inventory>)
    ensures
        ({
            let there = items.filter(|item: Inventory| mempool.lookup(item) is Some);
            &&& found(mempool, items).len() == there.len()
            &&& forall|k: int|
                0 <= k < there.len() ==> #[trigger] found(mempool, items)[k] == MessageView::Tx(
                    mempool.lookup(there[k]).unwrap(),
                )
        }),
    decreases items.len(),
{
    reveal(Seq::filter);
    if items.len() > 0 {
        lemma_found_in_order(mempool, items.drop_last());
    }
}

/// Two requests made as one are answered with the transactions of the first, then those of the
/// second, and one list of what is missing of the first and then of the second.
pub proof fn law_getdata_is_answered_in_order(
    mempool: MempoolView,
    a: Seq<Inventory>,
    b: Seq<Inventory>,
)
    ensures
        found(mempool, a + b) == found(mempool, a) + found(mempool, b),
        missing(mempool, a + b) == missing(mempool, a) + missing(mempool, b),
    decreases b.len(),
{
    Seq::filter_distributes_over_add(a, b, |item: Inventory| mempool.lookup(item) is None);
    if b.len() > 0 {
        law_getdata_is_answered_in_order(mempool, a, b.drop_last());
        assert((a + b).drop_last() =~= a + b.drop_last());
        assert(found(mempool, a + b) =~= found(mempool, a) + found(mempool, b));
    } else {
        assert(a + b =~= a);
        assert(found(mempool, a + b) =~= found(mempool, a) + found(mempool, b));
    }
}

/// Nothing but a `ping`, an `inv` and a `getdata` is answered.
pub proof fn law_other_messages_are_not_answered(mempool: MempoolView, message: MessageView)
    ensures
        message !is Ping && message !is Inv && message !is GetData ==> replies(
            mempool,
            message,
        ).len() == 0,
        message matches MessageView::Ping(nonce) ==> replies(mempool, message).len() == 1
            && replies(mempool, message)[0] == MessageView::Pong(nonce),
{
}

/// Every message but a `ping` and an `alert` is kept as it came, and those two are not.
pub proof fn law_all_but_pings_and_alerts_are_kept(message: MessageView)
    ensures
        message !is Ping && message !is Alert ==> kept(message) == Some(message),
        message is Ping || message is Alert ==> kept(message) is None,
{
}

/// A `tx` puts its transaction into the mempool as it came, witnesses included, and loses no
/// other. No other message changes the mempool.
pub proof fn law_only_transactions_change_the_mempool(
    mempool: MempoolView,
    message: MessageView,
    id: Seq<u8>,
)
    ensures
        message !is Tx ==> mempool_after(mempool, message) == mempool,
        message matches MessageView::Tx(tx) ==> {
            let after = mempool_after(mempool, message);
            &&& after == mempool.add(tx)
            &&& after.by_txid(crate::primitives::txid_of(tx)) == Some(tx)
            &&& after.by_wtxid(crate::primitives::wtxid_of(tx)) == Some(tx)
            &&& id != crate::primitives::txid_of(tx) ==> after.by_txid(id) == mempool.by_txid(id)
        },
{
}

/// A list of messages says what each of them says.
pub proof fn law_views_say_each(messages: Seq<NetworkMessage>, i: int)
    ensures
        views(messages).len() == messages.len(),
        0 <= i < messages.len() ==> views(messages)[i] == messages[i]@,
{
}

/// While answers are left the first of them is sent next and the others stay, in order. The
/// message waits until none is left; it is then kept as it came, or dropped where it is not
/// to be kept.
pub proof fn law_answers_go_before_the_message(
    network: Network,
    replies: Seq<MessageView>,
    incoming: Option<MessageView>,
)
    ensures
        replies.len() > 0 ==> (next_step(network, replies, incoming) matches StepView::Send(
            raw,
            rest,
            waiting,
        ) && raw.magic == crate::networking::message::network_magic(network) && seq![raw.payload]
            + rest == replies && waiting == incoming),
        replies.len() == 0 ==> next_step(network, replies, incoming) == match incoming {
            Some(message) => StepView::Deliver(message),
            None => StepView::Read,
        },
{
    if replies.len() > 0 {
        assert(seq![replies[0]] + replies.skip(1) =~= replies);
    }
}

/// A send that succeeded goes on where the answers stood, and one that failed ends the
/// connection.
pub proof fn law_sends_decide_what_follows(
    network: Network,
    rest: Seq<MessageView>,
    incoming: Option<MessageView>,
)
    ensures
        step_on_sent(network, rest, incoming, true) == next_step(network, rest, incoming),
        step_on_sent(network, rest, incoming, false) == StepView::Disconnect,
{
}

/// A message of the network sets off its own answers, and is kept where such messages are.
pub proof fn law_messages_of_the_network_are_taken(
    network: Network,
    mempool: MempoolView,
    raw: RawView,
)
    requires
        raw.magic == crate::networking::message::network_magic(network),
    ensures
        step_on_message(network, mempool, raw) == next_step(
            network,
            replies(mempool, raw.payload),
            kept(raw.payload),
        ),
        raw.payload !is Ping && raw.payload !is Alert && raw.payload !is Inv && raw.payload
            !is GetData ==> step_on_message(network, mempool, raw) == StepView::Deliver(
            raw.payload,
        ),
{
}

/// What a step asks for is what it holds: no step says two things.
pub proof fn law_step_says_what_it_holds(step: ReaderStep, network: Network, v: StepView)
    requires
        step.says(network, v),
    ensures
        step is Read <==> v is Read,
        step is Disconnect <==> v is Disconnect,
        step is Send <==> v is Send,
        step is Deliver <==> v is Deliver,
        step matches ReaderStep::Send(raw, replying) ==> v == StepView::Send(
            raw@,
            replying.rest(),
            replying.incoming(),
        ) && replying.network() == network,
        step matches ReaderStep::Deliver(message, reader) ==> v == StepView::Deliver(message@)
            && reader.network() == network,
        step matches ReaderStep::Read(reader) ==> reader.network() == network,
{
}

} // verus!
