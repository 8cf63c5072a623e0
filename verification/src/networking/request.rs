//! What a peer is asked for, and what becomes of its answers
//!
//! Each state below knows the one event that it waits for, and what comes after it.

use vstd::prelude::*;

use crate::mempool::{Mempool, MempoolView};
use crate::networking::error::NetworkingError;
use crate::networking::inbox::InboxView;
use crate::networking::message::{
    frame, Inventory, MessageView, Network, NetworkMessage, RawNetworkMessage,
};
use crate::networking::peer::{send_result, Awaited, INV_TIMEOUT_SECS, TIMEOUT_SECS};
use crate::primitives::{Block, BlockView, TransactionView};

verus! {

/// A request for a block is being sent.
pub struct SendingGetBlock;

/// A block is awaited.
pub struct AwaitingBlock;

impl SendingGetBlock {
    /// Take note of whether the request could be sent
    pub fn on_sent(self, sent: bool) -> (r: Result<AwaitingBlock, NetworkingError>)
        ensures
            match r {
                Ok(_) => sent,
                Err(e) => !sent && e == NetworkingError::DataCorruption,
            },
    {
        match send_result(sent) {
            Ok(()) => Ok(AwaitingBlock),
            Err(e) => Err(e),
        }
    }
}

/// The outcome of a request for a block, given the message that came
pub open spec fn block_outcome(message: Option<MessageView>) -> Result<
    Option<BlockView>,
    NetworkingError,
> {
    match message {
        None => Ok(None),
        Some(MessageView::Block(block)) => Ok(Some(block)),
        _ => Err(NetworkingError::InvalidResponse),
    }
}

impl AwaitingBlock {
    /// What is awaited
    pub fn awaits(&self) -> (r: Awaited)
        ensures
            r.command@ == "block"@,
            r.timeout_secs == Some(TIMEOUT_SECS),
    {
        Awaited { command: "block", timeout_secs: Some(TIMEOUT_SECS) }
    }

    /// Take the message that came, `None` where none came in time
    pub fn on_received(self, message: Option<NetworkMessage>) -> (r: Result<
        Option<Block>,
        NetworkingError,
    >)
        ensures
            ({
                let outcome = block_outcome(
                    match message {
                        Some(message) => Some(message@),
                        None => None,
                    },
                );
                match r {
                    Ok(Some(block)) => outcome == Ok::<Option<BlockView>, NetworkingError>(
                        Some(block@),
                    ),
                    Ok(None) => outcome == Ok::<Option<BlockView>, NetworkingError>(None),
                    Err(e) => outcome == Err::<Option<BlockView>, NetworkingError>(e),
                }
            }),
            match message {
                None => r == Ok::<Option<Block>, NetworkingError>(None),
                Some(NetworkMessage::Block(block)) => r == Ok::<Option<Block>, NetworkingError>(
                    Some(block),
                ),
                _ => r == Err::<Option<Block>, NetworkingError>(NetworkingError::InvalidResponse),
            },
    {
        match message {
            None => Ok(None),
            Some(NetworkMessage::Block(response)) => Ok(Some(response)),
            _ => Err(NetworkingError::InvalidResponse),
        }
    }
}

/// Whether an item is a transaction that the mempool does not have
pub open spec fn is_unknown_tx(mempool: MempoolView, item: Inventory) -> bool {
    match item {
        Inventory::Transaction(txid) => !mempool.txs.contains_key(txid@),
        _ => false,
    }
}

/// Of the items in the peer's mempool, the transactions that are not in ours
pub open spec fn unknown_txs(mempool: MempoolView, items: Seq<Inventory>) -> Seq<Inventory> {
    items.filter(|item: Inventory| is_unknown_tx(mempool, item))
}

/// Of the items in the peer's mempool, pick the transactions that are not in ours
fn pick_unknown(mempool: Option<&Mempool>, items: &Vec<Inventory>) -> (r: Vec<Inventory>)
    ensures
        r@ == unknown_txs(crate::mempool::seen(mempool), items@),
{
    let ghost contents = crate::mempool::seen(mempool);
    let mut r: Vec<Inventory> = Vec::new();
    assert(unknown_txs(contents, items@.take(0)) =~= Seq::<Inventory>::empty()) by {
        reveal(Seq::filter);
    }
    for i in 0..items.len()
        invariant
            contents == crate::mempool::seen(mempool),
            r@ == unknown_txs(contents, items@.take(i as int)),
    {
        proof {
            reveal(Seq::filter);
            assert(items@.take(i + 1).drop_last() =~= items@.take(i as int));
        }
        if let Inventory::Transaction(txid) = &items[i] {
            let known = match mempool {
                Some(mempool) => mempool.has_tx(txid),
                None => false,
            };
            if !known {
                r.push(items[i]);
            }
        }
    }
    assert(items@.take(items.len() as int) =~= items@);
    r
}

/// What comes of the message that answers a request for a transaction: the mempool with the
/// transaction, or the reason to give up
pub open spec fn tx_outcome(mempool: MempoolView, message: Option<MessageView>) -> Result<
    MempoolView,
    NetworkingError,
> {
    match message {
        None => Err(NetworkingError::Timeout),
        Some(MessageView::Tx(tx)) => Ok(mempool.add(tx)),
        _ => Err(NetworkingError::InvalidResponse),
    }
}

/// What comes of the messages that answer a request for as many transactions: the mempool in
/// the end, and the reason to give up where there was one
///
/// After the first message that is a reason to give up, no other is looked at.
pub open spec fn fetch_outcome(mempool: MempoolView, messages: Seq<Option<MessageView>>) -> (
    MempoolView,
    Option<NetworkingError>,
)
    decreases messages.len(),
{
    if messages.len() == 0 {
        (mempool, None)
    } else {
        match tx_outcome(mempool, messages[0]) {
            Ok(next) => fetch_outcome(next, messages.skip(1)),
            Err(e) => (mempool, Some(e)),
        }
    }
}

/// A request for what is in the peer's mempool is being sent.
pub struct SendingMemPool {
    network: Network,
}

/// What is in the peer's mempool is awaited.
pub struct AwaitingInv {
    network: Network,
}

/// A request for transactions is being sent.
pub struct SendingGetData {
    remaining: usize,
}

/// A transaction is awaited.
pub struct AwaitingTx {
    remaining: usize,
}

/// How far a request for transactions is
pub enum Fetch {
    /// All of them came.
    Done,
    /// Some are still awaited.
    Awaiting(AwaitingTx),
}

impl SendingMemPool {
    /// The network that the peer is on
    pub closed spec fn network(self) -> Network {
        self.network
    }

    /// The request goes out to a peer on `network`.
    pub(crate) fn new(network: Network) -> (r: SendingMemPool)
        ensures
            r.network() == network,
    {
        SendingMemPool { network }
    }

    /// Take note of whether the request could be sent
    pub fn on_sent(self, sent: bool) -> (r: Result<AwaitingInv, NetworkingError>)
        ensures
            match r {
                Ok(next) => sent && next.network() == self.network(),
                Err(e) => !sent && e == NetworkingError::DataCorruption,
            },
    {
        match send_result(sent) {
            Ok(()) => Ok(AwaitingInv { network: self.network }),
            Err(e) => Err(e),
        }
    }
}

impl AwaitingInv {
    /// The network that the peer is on
    pub closed spec fn network(self) -> Network {
        self.network
    }

    /// What is awaited
    pub fn awaits(&self) -> (r: Awaited)
        ensures
            r.command@ == "inv"@,
            r.timeout_secs == Some(INV_TIMEOUT_SECS),
    {
        Awaited { command: "inv", timeout_secs: Some(INV_TIMEOUT_SECS) }
    }

    /// Take the message that came, `None` where none came in time
    ///
    /// A peer that says nothing has an empty mempool. Of what it has, the transactions that
    /// are not in `mempool` are asked for: gives the message to send and what comes after it.
    /// Where the mempool cannot be had, `None`, all of them are asked for.
    pub fn on_received(
        self,
        mempool: Option<&Mempool>,
        message: Option<NetworkMessage>,
    ) -> (r: Result<Option<(RawNetworkMessage, SendingGetData)>, NetworkingError>)
        ensures
            match message {
                None => r == Ok::<
                    Option<(RawNetworkMessage, SendingGetData)>,
                    NetworkingError,
                >(None),
                Some(message) => match message@ {
                    MessageView::Inv(items) => {
                        &&& r matches Ok(Some((raw, next)))
                        &&& raw@ == crate::networking::message::framed(
                            self.network(),
                            MessageView::GetData(unknown_txs(crate::mempool::seen(mempool), items)),
                        )
                        &&& next.remaining() == unknown_txs(crate::mempool::seen(mempool), items).len()
                    },
                    _ => r == Err::<
                        Option<(RawNetworkMessage, SendingGetData)>,
                        NetworkingError,
                    >(NetworkingError::InvalidResponse),
                },
            },
    {
        let items = match message {
            None => return Ok(None),
            Some(NetworkMessage::Inv(items)) => items,
            _ => return Err(NetworkingError::InvalidResponse),
        };
        let getdata = pick_unknown(mempool, &items);
        let remaining = getdata.len();
        Ok(
            Some(
                (
                    frame(self.network, NetworkMessage::GetData(getdata)),
                    SendingGetData { remaining },
                ),
            ),
        )
    }
}

impl Fetch {
    /// How many transactions are still awaited
    pub open spec fn remaining(self) -> nat {
        match self {
            Fetch::Done => 0,
            Fetch::Awaiting(next) => next.remaining(),
        }
    }

    /// A request on which `remaining` transactions are still awaited
    fn of(remaining: usize) -> (r: Fetch)
        ensures
            r.remaining() == remaining,
            r is Done <==> remaining == 0,
    {
        if remaining == 0 {
            Fetch::Done
        } else {
            Fetch::Awaiting(AwaitingTx { remaining })
        }
    }
}

impl SendingGetData {
    /// How many transactions are asked for
    pub closed spec fn remaining(self) -> nat {
        self.remaining as nat
    }

    /// Take note of whether the request could be sent
    pub fn on_sent(self, sent: bool) -> (r: Result<Fetch, NetworkingError>)
        ensures
            match r {
                Ok(next) => {
                    &&& sent
                    &&& next.remaining() == self.remaining()
                    &&& next is Done <==> self.remaining() == 0
                },
                Err(e) => !sent && e == NetworkingError::DataCorruption,
            },
    {
        match send_result(sent) {
            Ok(()) => Ok(Fetch::of(self.remaining)),
            Err(e) => Err(e),
        }
    }
}

impl AwaitingTx {
    #[verifier::type_invariant]
    spec fn inv(&self) -> bool {
        self.remaining > 0
    }

    /// How many transactions are still awaited
    pub closed spec fn remaining(self) -> nat {
        self.remaining as nat
    }

    /// What is awaited
    pub fn awaits(&self) -> (r: Awaited)
        ensures
            r.command@ == "tx"@,
            r.timeout_secs == Some(TIMEOUT_SECS),
    {
        Awaited { command: "tx", timeout_secs: Some(TIMEOUT_SECS) }
    }

    /// Take the message that came, `None` where none came in time
    ///
    /// A transaction goes into the mempool. Where that cannot be had, `None`, the transaction
    /// counts as fetched and is dropped.
    pub fn on_received(
        self,
        mempool: Option<&mut Mempool>,
        message: Option<NetworkMessage>,
    ) -> (r: Result<Fetch, NetworkingError>)
        ensures
            self.remaining() > 0,
            match tx_outcome(
                crate::mempool::seen_mut(mempool),
                match message {
                    Some(message) => Some(message@),
                    None => None,
                },
            ) {
                Ok(next) => {
                    &&& mempool matches Some(m) ==> final(m)@ == next
                    &&& r matches Ok(fetch)
                    &&& fetch.remaining() == self.remaining() - 1
                    &&& fetch is Done <==> self.remaining() == 1
                },
                Err(e) => {
                    &&& mempool matches Some(m) ==> final(m)@ == crate::mempool::seen_mut(mempool)
                    &&& r == Err::<Fetch, NetworkingError>(e)
                },
            },
            match message {
                None => r == Err::<Fetch, NetworkingError>(NetworkingError::Timeout),
                Some(NetworkMessage::Tx(tx)) => {
                    &&& r is Ok
                    &&& mempool matches Some(m) ==> final(m)@ == crate::mempool::seen_mut(
                        mempool,
                    ).add(tx@)
                },
                _ => r == Err::<Fetch, NetworkingError>(NetworkingError::InvalidResponse),
            },
    {
        proof {
            use_type_invariant(&self);
        }
        let tx = match message {
            None => return Err(NetworkingError::Timeout),
            Some(NetworkMessage::Tx(tx)) => tx,
            _ => return Err(NetworkingError::InvalidResponse),
        };
        if let Some(mempool) = mempool {
            mempool.add_tx(tx);
        }
        Ok(Fetch::of(self.remaining - 1))
    }
}

/// A message that is waited for by its command is never an invalid response: under `block`
/// comes a block, under `tx` a transaction, under `inv` an inventory, and so for the messages
/// of a handshake.
pub proof fn law_awaited_message_is_no_invalid_response(mempool: MempoolView, message: MessageView)
    ensures
        message.valid() ==> {
            &&& message.command() == "version"@ ==> message is Version
            &&& message.command() == "verack"@ ==> message is Verack
            &&& message.command() == "inv"@ ==> message is Inv
            &&& message.command() == "block"@ ==> block_outcome(Some(message)) is Ok
            &&& message.command() == "tx"@ ==> tx_outcome(mempool, Some(message)) is Ok
        },
{
    crate::networking::message::law_command_tells_kind(message);
}

/// Fetching loses nothing that could be found before, however it ends.
pub proof fn law_fetch_loses_nothing(
    mempool: MempoolView,
    messages: Seq<Option<MessageView>>,
    item: Inventory,
)
    ensures
        mempool.lookup(item) is Some ==> fetch_outcome(mempool, messages).0.lookup(item) is Some,
    decreases messages.len(),
{
    if messages.len() > 0 {
        if let Ok(next) = tx_outcome(mempool, messages[0]) {
            law_fetch_loses_nothing(next, messages.skip(1), item);
        }
    }
}

/// A fetch succeeds if and only if every answer is a transaction, and then all of them are in
/// the mempool.
pub proof fn law_fetch_takes_all(mempool: MempoolView, messages: Seq<Option<MessageView>>)
    ensures
        fetch_outcome(mempool, messages).1 is None <==> (forall|i: int|
            0 <= i < messages.len() ==> #[trigger] messages[i] matches Some(MessageView::Tx(_))),
        fetch_outcome(mempool, messages).1 is None ==> forall|i: int|
            0 <= i < messages.len() ==> (#[trigger] messages[i] matches Some(MessageView::Tx(tx))
                && fetch_outcome(mempool, messages).0.txs.contains_key(
                crate::primitives::txid_of(tx),
            )),
    decreases messages.len(),
{
    if messages.len() > 0 {
        let rest = messages.skip(1);
        match messages[0] {
            Some(MessageView::Tx(tx)) => {
                let next = mempool.add(tx);
                law_fetch_takes_all(next, rest);
                lemma_fetch_keeps_txid(next, rest, crate::primitives::txid_of(tx));
                assert forall|i: int| 0 <= i < rest.len() implies #[trigger] rest[i] == messages[i
                    + 1] by {}
                assert forall|i: int| 1 <= i < messages.len() implies #[trigger] messages[i]
                    == rest[i - 1] by {}
            },
            _ => {
                assert(!(messages[0] matches Some(MessageView::Tx(_))));
            },
        }
    }
}

proof fn lemma_fetch_keeps_txid(
    mempool: MempoolView,
    messages: Seq<Option<MessageView>>,
    txid: Seq<u8>,
)
    requires
        mempool.txs.contains_key(txid),
    ensures
        fetch_outcome(mempool, messages).0.txs.contains_key(txid),
    decreases messages.len(),
{
    if messages.len() > 0 {
        if let Ok(next) = tx_outcome(mempool, messages[0]) {
            lemma_fetch_keeps_txid(next, messages.skip(1), txid);
        }
    }
}

/// Only transactions that are named by txid and not in the mempool are asked for, and all of
/// them are.
pub proof fn law_only_unknown_are_asked_for(
    mempool: MempoolView,
    items: Seq<Inventory>,
    item: Inventory,
)
    ensures
        unknown_txs(mempool, items).contains(item) <==> items.contains(item) && is_unknown_tx(
            mempool,
            item,
        ),
{
    let pred = |item: Inventory| is_unknown_tx(mempool, item);
    let unknown = unknown_txs(mempool, items);
    if unknown.contains(item) {
        items.lemma_filter_contains_rev(pred, item);
        let i = choose|i: int| 0 <= i < unknown.len() && unknown[i] == item;
        items.lemma_filter_pred(pred, i);
    }
    if items.contains(item) && is_unknown_tx(mempool, item) {
        let i = choose|i: int| 0 <= i < items.len() && items[i] == item;
        items.lemma_filter_contains(pred, i);
    }
}

/// When the peer answers with what it was asked for, every transaction that it announced by
/// txid is in our mempool in the end.
pub proof fn law_fetch_completes_mempool(
    mempool: MempoolView,
    items: Seq<Inventory>,
    messages: Seq<Option<MessageView>>,
    i: int,
)
    requires
        forall|j: int|
            0 <= j < messages.len() ==> #[trigger] messages[j] matches Some(MessageView::Tx(_)),
    ensures
        (forall|item: Inventory| #[trigger]
            unknown_txs(mempool, items).contains(item) ==> exists|j: int|
                0 <= j < messages.len() && answers(#[trigger] messages[j], item)) ==> (0 <= i
            < items.len() ==> (items[i] matches Inventory::Transaction(txid) ==> fetch_outcome(
            mempool,
            messages,
        ).0.txs.contains_key(txid@))),
{
    if 0 <= i < items.len() && (forall|item: Inventory| #[trigger]
        unknown_txs(mempool, items).contains(item) ==> exists|j: int|
            0 <= j < messages.len() && answers(#[trigger] messages[j], item)) {
        if let Inventory::Transaction(txid) = items[i] {
            if mempool.txs.contains_key(txid@) {
                lemma_fetch_keeps_txid(mempool, messages, txid@);
            } else {
                law_only_unknown_are_asked_for(mempool, items, items[i]);
                assert(items.contains(items[i]));
                let j = choose|j: int|
                    0 <= j < messages.len() && answers(#[trigger] messages[j], items[i]);
                law_fetch_takes_all(mempool, messages);
                assert(messages[j] matches Some(MessageView::Tx(_)));
            }
        }
    }
}

/// Whether a message is the transaction that an item names by txid
pub open spec fn answers(message: Option<MessageView>, item: Inventory) -> bool {
    match (message, item) {
        (Some(MessageView::Tx(tx)), Inventory::Transaction(txid)) => {
            crate::primitives::txid_of(tx) == txid@
        },
        _ => false,
    }
}

/// A block that comes is handed over as it came, silence is no block, and anything else is an
/// invalid response.
pub proof fn law_block_is_handed_over(message: MessageView)
    ensures
        block_outcome(None) == Ok::<Option<BlockView>, NetworkingError>(None),
        message matches MessageView::Block(block) ==> block_outcome(Some(message)) == Ok::<
            Option<BlockView>,
            NetworkingError,
        >(Some(block)),
        message !is Block ==> block_outcome(Some(message)) == Err::<
            Option<BlockView>,
            NetworkingError,
        >(NetworkingError::InvalidResponse),
{
}

/// A block that a peer sends reaches whoever asked for it: it is kept, it is what is taken out
/// next under `block`, and it is the outcome of the request.
pub proof fn law_block_reaches_who_asked(
    network: Network,
    mempool: MempoolView,
    inbox: InboxView,
    block: BlockView,
)
    ensures
        ({
            let message = MessageView::Block(block);
            let raw = crate::networking::message::framed(network, message);
            &&& crate::networking::reader::step_on_message(network, mempool, raw)
                == crate::networking::reader::StepView::Deliver(message)
            &&& inbox.deliver(message).queues["block"@].len() > 0
            &&& inbox.deliver(message).queues["block"@].last() == message
            &&& block_outcome(Some(inbox.deliver(message).queues["block"@].last())) == Ok::<
                Option<BlockView>,
                NetworkingError,
            >(Some(block))
        }),
{
}

/// A transaction that was announced is unknown exactly where its txid finds nothing. Items of
/// other types are never asked for here.
pub proof fn law_unknown_is_what_txids_do_not_find(mempool: MempoolView, item: Inventory)
    ensures
        item matches Inventory::Transaction(txid) ==> (is_unknown_tx(mempool, item)
            <==> mempool.by_txid(txid@) is None),
        item !is Transaction ==> !is_unknown_tx(mempool, item),
{
}

/// What is asked for of two announcements made as one is what is asked for of the first and
/// then of the second. A single item is asked for exactly where it is unknown.
pub proof fn law_unknown_are_asked_for_in_order(
    mempool: MempoolView,
    a: Seq<Inventory>,
    b: Seq<Inventory>,
    item: Inventory,
)
    ensures
        unknown_txs(mempool, a + b) == unknown_txs(mempool, a) + unknown_txs(mempool, b),
        unknown_txs(mempool, seq![item]) == if item matches Inventory::Transaction(txid)
            && mempool.by_txid(txid@) is None {
            seq![item]
        } else {
            seq![]
        },
        unknown_txs(mempool, seq![]) == Seq::<Inventory>::empty(),
{
    let pred = |item: Inventory| is_unknown_tx(mempool, item);
    Seq::filter_distributes_over_add(a, b, pred);
    reveal(Seq::filter);
    let one = seq![item];
    assert(one.drop_last() =~= Seq::<Inventory>::empty());
    assert(one.drop_last().filter(pred) =~= Seq::<Inventory>::empty());
    assert(unknown_txs(mempool, one) =~= if is_unknown_tx(mempool, item) {
        seq![item]
    } else {
        seq![]
    });
    assert(unknown_txs(mempool, Seq::<Inventory>::empty()) =~= seq![]);
}

/// A transaction that comes goes into the mempool as it came, witnesses included: both its ids
/// find it. Silence is a timeout, and anything else an invalid response.
pub proof fn law_fetched_transaction_is_stored_whole(mempool: MempoolView, message: MessageView)
    ensures
        tx_outcome(mempool, None) == Err::<MempoolView, NetworkingError>(NetworkingError::Timeout),
        message !is Tx ==> tx_outcome(mempool, Some(message)) == Err::<
            MempoolView,
            NetworkingError,
        >(NetworkingError::InvalidResponse),
        message matches MessageView::Tx(tx) ==> {
            &&& tx_outcome(mempool, Some(message)) matches Ok(after)
            &&& after == mempool.add(tx)
            &&& after.by_txid(crate::primitives::txid_of(tx)) == Some(tx)
            &&& after.by_wtxid(crate::primitives::wtxid_of(tx)) == Some(tx)
        },
{
}

/// When every answer is a transaction, the mempool in the end is the one before with exactly
/// these transactions added, as they came and in their order.
pub proof fn law_fetch_adds_what_came(mempool: MempoolView, txs: Seq<TransactionView>)
    ensures
        fetch_outcome(
            mempool,
            txs.map_values(|tx: TransactionView| Some(MessageView::Tx(tx))),
        ) == (mempool.add_all(txs), None::<NetworkingError>),
{
    let answer = |tx: TransactionView| Some(MessageView::Tx(tx));
    lemma_fetch_goes_on(mempool, txs, seq![]);
    assert(txs.map_values(answer) + seq![] =~= txs.map_values(answer));
}

/// Answers that are transactions are added one after the other, whatever comes after them.
proof fn lemma_fetch_goes_on(
    mempool: MempoolView,
    txs: Seq<TransactionView>,
    more: Seq<Option<MessageView>>,
)
    ensures
        fetch_outcome(
            mempool,
            txs.map_values(|tx: TransactionView| Some(MessageView::Tx(tx))) + more,
        ) == fetch_outcome(mempool.add_all(txs), more),
    decreases txs.len(),
{
    let answer = |tx: TransactionView| Some(MessageView::Tx(tx));
    let messages = txs.map_values(answer) + more;
    if txs.len() == 0 {
        assert(messages =~= more);
    } else {
        let rest = txs.skip(1);
        assert(messages[0] == Some(MessageView::Tx(txs[0])));
        assert(messages.skip(1) =~= rest.map_values(answer) + more);
        lemma_fetch_goes_on(mempool.add(txs[0]), rest, more);
        crate::mempool::law_history_is_added_in_order(mempool, seq![txs[0]], rest, txs[0]);
        assert(seq![txs[0]] + rest =~= txs);
    }
}

/// The first answer that is no transaction ends a fetch, with a timeout where nothing came and
/// with an invalid response otherwise. What came before it stays in the mempool, and what
/// comes after it is not looked at.
pub proof fn law_fetch_ends_at_the_first_failure(
    mempool: MempoolView,
    txs: Seq<TransactionView>,
    failure: Option<MessageView>,
    more: Seq<Option<MessageView>>,
)
    requires
        !(failure matches Some(MessageView::Tx(_))),
    ensures
        fetch_outcome(
            mempool,
            txs.map_values(|tx: TransactionView| Some(MessageView::Tx(tx))) + (seq![failure]
                + more),
        ) == (
            mempool.add_all(txs),
            Some(
                if failure is None {
                    NetworkingError::Timeout
                } else {
                    NetworkingError::InvalidResponse
                },
            ),
        ),
{
    lemma_fetch_goes_on(mempool, txs, seq![failure] + more);
    assert((seq![failure] + more)[0] == failure);
}

/// What was fetched is found whole: a transaction after which none with one of its ids came is
/// what both its ids find.
pub proof fn law_fetched_transactions_are_found_whole(
    mempool: MempoolView,
    txs: Seq<TransactionView>,
    i: int,
)
    requires
        0 <= i < txs.len(),
        forall|j: int|
            i < j < txs.len() ==> crate::primitives::txid_of(#[trigger] txs[j])
                != crate::primitives::txid_of(txs[i]) && crate::primitives::wtxid_of(txs[j])
                != crate::primitives::wtxid_of(txs[i]),
    ensures
        ({
            let after = fetch_outcome(
                mempool,
                txs.map_values(|tx: TransactionView| Some(MessageView::Tx(tx))),
            ).0;
            &&& after.by_txid(crate::primitives::txid_of(txs[i])) == Some(txs[i])
            &&& after.by_wtxid(crate::primitives::wtxid_of(txs[i])) == Some(txs[i])
        }),
{
    law_fetch_adds_what_came(mempool, txs);
    lemma_last_added_is_found(mempool, txs, i);
}

proof fn lemma_last_added_is_found(mempool: MempoolView, txs: Seq<TransactionView>, i: int)
    requires
        0 <= i < txs.len(),
        forall|j: int|
            i < j < txs.len() ==> crate::primitives::txid_of(#[trigger] txs[j])
                != crate::primitives::txid_of(txs[i]) && crate::primitives::wtxid_of(txs[j])
                != crate::primitives::wtxid_of(txs[i]),
    ensures
        mempool.add_all(txs).by_txid(crate::primitives::txid_of(txs[i])) == Some(txs[i]),
        mempool.add_all(txs).by_wtxid(crate::primitives::wtxid_of(txs[i])) == Some(txs[i]),
        mempool.add_all(txs).wtxids[crate::primitives::wtxid_of(txs[i])]
            == crate::primitives::txid_of(txs[i]),
    decreases txs.len(),
{
    if i < txs.len() - 1 {
        let rest = txs.drop_last();
        assert(rest[i] == txs[i]);
        assert forall|j: int| i < j < rest.len() implies crate::primitives::txid_of(
            #[trigger] rest[j],
        ) != crate::primitives::txid_of(rest[i]) && crate::primitives::wtxid_of(rest[j])
            != crate::primitives::wtxid_of(rest[i]) by {
            assert(rest[j] == txs[j]);
        }
        lemma_last_added_is_found(mempool, rest, i);
        assert(crate::primitives::txid_of(txs[txs.len() - 1]) != crate::primitives::txid_of(
            txs[i],
        ));
        crate::mempool::law_add_leaves_others(
            mempool.add_all(rest),
            txs.last(),
            crate::primitives::txid_of(txs[i]),
            crate::primitives::wtxid_of(txs[i]),
        );
    } else {
        assert(txs.last() == txs[i]);
    }
}

} // verus!
