//! What came in and waits to be asked for

use std::time::Duration;

use vstd::prelude::*;

use crate::networking::message::{MessageView, NetworkMessage};

verus! {

/// The messages that wait, by command, and whether more can come
#[verifier::ext_equal]
pub struct InboxView {
    /// Whether the peer is still connected
    pub connected: bool,
    /// The messages of each command, in the order in which they came in
    pub queues: Map<Seq<char>, Seq<MessageView>>,
}

impl InboxView {
    /// The inbox of a new connection
    pub open spec fn empty() -> InboxView {
        InboxView { connected: true, queues: Map::total(|command: Seq<char>| seq![]) }
    }

    /// Every message stands under its own command.
    pub open spec fn wf(self) -> bool {
        well_filed(self.queues)
    }

    /// The inbox after a message came in
    pub open spec fn deliver(self, message: MessageView) -> InboxView {
        InboxView {
            queues: self.queues.insert(
                message.command(),
                self.queues[message.command()].push(message),
            ),
            ..self
        }
    }

    /// The inbox after the newest message of a command was taken out
    pub open spec fn take(self, command: Seq<char>) -> InboxView {
        InboxView {
            queues: self.queues.insert(command, self.queues[command].drop_last()),
            ..self
        }
    }

    /// The inbox after the connection was lost
    pub open spec fn disconnect(self) -> InboxView {
        InboxView { connected: false, ..self }
    }
}

/// Every command has a queue, and every message stands in the queue of its own command.
pub open spec fn well_filed(queues: Map<Seq<char>, Seq<MessageView>>) -> bool {
    &&& forall|command: Seq<char>| #[trigger] queues.contains_key(command)
    &&& forall|command: Seq<char>, i: int|
        0 <= i < queues[command].len() ==> {
            &&& (#[trigger] queues[command][i]).command() == command
            &&& queues[command][i].valid()
        }
}

/// The messages of one command
#[derive(Debug)]
struct Queue {
    command: String,
    messages: Vec<NetworkMessage>,
}

/// Where the messages of a command stand
spec fn is_at(queues: Seq<Queue>, command: Seq<char>, i: int) -> bool {
    0 <= i < queues.len() && queues[i].command@ == command
}

/// The messages of a command
spec fn messages_of(queues: Seq<Queue>, command: Seq<char>) -> Seq<MessageView> {
    if exists|i: int| is_at(queues, command, i) {
        crate::networking::reader::views(
            queues[choose|i: int| is_at(queues, command, i)].messages@,
        )
    } else {
        seq![]
    }
}

spec fn queues_model(queues: Seq<Queue>) -> Map<Seq<char>, Seq<MessageView>> {
    Map::total(|command: Seq<char>| messages_of(queues, command))
}

/// No command stands twice.
spec fn distinct(queues: Seq<Queue>) -> bool {
    forall|i: int, j: int|
        0 <= i < queues.len() && 0 <= j < queues.len() && i != j ==> (#[trigger] queues[i]).command@
            != (#[trigger] queues[j]).command@
}

proof fn lemma_messages_at(queues: Seq<Queue>, i: int)
    requires
        distinct(queues),
        0 <= i < queues.len(),
    ensures
        messages_of(queues, queues[i].command@) == crate::networking::reader::views(
            queues[i].messages@,
        ),
{
    assert(is_at(queues, queues[i].command@, i));
}

/// Changing the messages of one command changes those of no other.
proof fn lemma_model_update(queues: Seq<Queue>, i: int, queue: Queue)
    requires
        distinct(queues),
        0 <= i < queues.len(),
        queue.command@ == queues[i].command@,
    ensures
        distinct(queues.update(i, queue)),
        queues_model(queues.update(i, queue)) == queues_model(queues).insert(
            queue.command@,
            crate::networking::reader::views(queue.messages@),
        ),
{
    let after = queues.update(i, queue);
    assert(distinct(after));
    assert forall|command: Seq<char>| command != queue.command@ implies messages_of(after, command)
        == messages_of(queues, command) by {
        if exists|j: int| is_at(queues, command, j) {
            let j = choose|j: int| is_at(queues, command, j);
            assert(is_at(after, command, j));
            lemma_messages_at(queues, j);
            lemma_messages_at(after, j);
        } else {
            assert forall|j: int| !is_at(after, command, j) by {
                assert(!is_at(queues, command, j));
            }
        }
    }
    lemma_messages_at(after, i);
    assert(queues_model(after) =~= queues_model(queues).insert(
        queue.command@,
        crate::networking::reader::views(queue.messages@),
    ));
}

/// A command that is new adds its messages and changes those of no other.
proof fn lemma_model_push(queues: Seq<Queue>, queue: Queue)
    requires
        distinct(queues),
        forall|i: int| !is_at(queues, queue.command@, i),
    ensures
        distinct(queues.push(queue)),
        queues_model(queues.push(queue)) == queues_model(queues).insert(
            queue.command@,
            crate::networking::reader::views(queue.messages@),
        ),
        messages_of(queues, queue.command@) == Seq::<MessageView>::empty(),
{
    let after = queues.push(queue);
    let last = queues.len() as int;
    assert forall|i: int, j: int|
        0 <= i < after.len() && 0 <= j < after.len() && i != j implies (
    #[trigger] after[i]).command@ != (#[trigger] after[j]).command@ by {
        if i == last {
            assert(!is_at(queues, queue.command@, j));
        } else if j == last {
            assert(!is_at(queues, queue.command@, i));
        }
    }
    assert forall|command: Seq<char>| command != queue.command@ implies messages_of(after, command)
        == messages_of(queues, command) by {
        if exists|j: int| is_at(queues, command, j) {
            let j = choose|j: int| is_at(queues, command, j);
            assert(is_at(after, command, j));
            lemma_messages_at(queues, j);
            lemma_messages_at(after, j);
        } else {
            assert forall|j: int| !is_at(after, command, j) by {
                assert(!is_at(queues, command, j));
            }
        }
    }
    lemma_messages_at(after, last);
    assert(queues_model(after) =~= queues_model(queues).insert(
        queue.command@,
        crate::networking::reader::views(queue.messages@),
    ));
}

/// Find the messages of a command
fn find(queues: &Vec<Queue>, command: &String) -> (r: Option<usize>)
    ensures
        match r {
            Some(i) => is_at(queues@, command@, i as int),
            None => forall|i: int| !is_at(queues@, command@, i),
        },
{
    for i in 0..queues.len()
        invariant
            forall|j: int| j < i ==> !is_at(queues@, command@, j),
    {
        if queues[i].command == *command {
            return Some(i);
        }
    }
    None
}

/// File a message under its command
fn file(queues: &mut Vec<Queue>, message: NetworkMessage)
    requires
        distinct(old(queues)@),
    ensures
        distinct(final(queues)@),
        message@.valid(),
        queues_model(final(queues)@) == queues_model(old(queues)@).insert(
            message@.command(),
            messages_of(old(queues)@, message@.command()).push(message@),
        ),
{
    let command = message.cmd().to_owned();
    match find(queues, &command) {
        Some(i) => {
            let ghost before = queues@;
            proof {
                lemma_messages_at(before, i as int);
            }
            queues[i].messages.push(message);
            proof {
                assert(queues@ =~= before.update(i as int, queues@[i as int]));
                assert(crate::networking::reader::views(queues@[i as int].messages@)
                    =~= crate::networking::reader::views(before[i as int].messages@).push(
                    message@,
                ));
                lemma_model_update(before, i as int, queues@[i as int]);
            }
        },
        None => {
            let mut messages: Vec<NetworkMessage> = Vec::new();
            messages.push(message);
            let queue = Queue { command, messages };
            proof {
                assert(crate::networking::reader::views(queue.messages@)
                    =~= Seq::<MessageView>::empty().push(message@));
                lemma_model_push(queues@, queue);
            }
            queues.push(queue);
        },
    }
}

/// Take the newest message of a command out
fn take_out(queues: &mut Vec<Queue>, command: &String) -> (r: Option<NetworkMessage>)
    requires
        distinct(old(queues)@),
    ensures
        distinct(final(queues)@),
        match r {
            Some(message) => {
                &&& messages_of(old(queues)@, command@).len() > 0
                &&& message@ == messages_of(old(queues)@, command@).last()
                &&& queues_model(final(queues)@) == queues_model(old(queues)@).insert(
                    command@,
                    messages_of(old(queues)@, command@).drop_last(),
                )
            },
            None => {
                &&& messages_of(old(queues)@, command@).len() == 0
                &&& queues_model(final(queues)@) == queues_model(old(queues)@)
            },
        },
{
    match find(queues, command) {
        Some(i) => {
            let ghost before = queues@;
            proof {
                lemma_messages_at(before, i as int);
            }
            let r = queues[i].messages.pop();
            proof {
                assert(queues@ =~= before.update(i as int, queues@[i as int]));
                lemma_model_update(before, i as int, queues@[i as int]);
                if before[i as int].messages@.len() > 0 {
                    assert(crate::networking::reader::views(queues@[i as int].messages@)
                        =~= crate::networking::reader::views(
                        before[i as int].messages@,
                    ).drop_last());
                } else {
                    assert(queues_model(queues@) =~= queues_model(before));
                }
            }
            r
        },
        None => None,
    }
}

/// What a peer sent and nobody asked for yet, and whether it is still connected
///
/// The reader of the connection puts messages in, and whoever expects one takes it out.
#[derive(Debug)]
pub struct Inbox {
    connected: bool,
    queues: Vec<Queue>,
}

impl View for Inbox {
    type V = InboxView;

    closed spec fn view(&self) -> InboxView {
        InboxView { connected: self.connected, queues: queues_model(self.queues@) }
    }
}

/// What to do next while waiting for a message
pub enum RecvStep {
    /// The wait is over, with a message or without
    Done(Option<NetworkMessage>),
    /// Wait for a message, for so long at most, and look again
    Wait(Option<Duration>),
}

impl Inbox {
    #[verifier::type_invariant]
    spec fn inv(&self) -> bool {
        &&& distinct(self.queues@)
        &&& well_filed(queues_model(self.queues@))
    }

    /// The inbox of a new connection
    pub fn new() -> (r: Inbox)
        ensures
            r@ == InboxView::empty(),
            r@.wf(),
    {
        let queues: Vec<Queue> = Vec::new();
        assert(forall|command: Seq<char>, i: int| !is_at(queues@, command, i));
        assert(queues_model(queues@) =~= InboxView::empty().queues);
        Inbox { connected: true, queues }
    }

    /// Return whether or not the peer is still connected
    pub fn is_connected(&self) -> (connected: bool)
        ensures
            connected == self@.connected,
    {
        self.connected
    }

    /// Take note that the connection was lost
    pub fn disconnect(&mut self)
        ensures
            final(self)@ == old(self)@.disconnect(),
            final(self)@.wf(),
    {
        proof {
            use_type_invariant(&*self);
        }
        self.connected = false;
    }

    /// Keep a message for whoever waits for its command
    pub fn deliver(&mut self, message: NetworkMessage)
        ensures
            final(self)@ == old(self)@.deliver(message@),
            final(self)@.wf(),
    {
        proof {
            use_type_invariant(&*self);
        }
        let mut queues: Vec<Queue> = Vec::new();
        let ghost before = self@;
        proof {
            assert(forall|command: Seq<char>, i: int| !is_at(queues@, command, i));
        }
        std::mem::swap(&mut self.queues, &mut queues);
        file(&mut queues, message);
        proof {
            let after = InboxView { connected: before.connected, queues: queues_model(queues@) };
            assert(after =~= before.deliver(message@));
            law_deliver_keeps_wf(before, message@);
        }
        self.queues = queues;
    }

    /// Look for a message with the command `wait_for`, optionally with a timeout
    ///
    /// The newest message of the command is taken out. While there is none, the caller waits
    /// and looks again, reporting with `timed_out` whether its wait ended by the timeout; it
    /// then gets no message.
    pub fn recv(&mut self, wait_for: &str, timeout: Option<Duration>, timed_out: bool) -> (step:
        RecvStep)
        ensures
            if timed_out && timeout is Some {
                &&& step == RecvStep::Done(None)
                &&& final(self)@ == old(self)@
            } else if old(self)@.queues[wait_for@].len() > 0 {
                &&& step matches RecvStep::Done(Some(message))
                &&& message@ == old(self)@.queues[wait_for@].last()
                &&& message@.command() == wait_for@
                &&& message@.valid()
                &&& final(self)@ == old(self)@.take(wait_for@)
            } else {
                &&& step == RecvStep::Wait(timeout)
                &&& final(self)@ == old(self)@
            },
            final(self)@.wf(),
    {
        proof {
            use_type_invariant(&*self);
        }
        if timed_out && timeout.is_some() {
            return RecvStep::Done(None);
        }
        let command = wait_for.to_owned();
        let mut queues: Vec<Queue> = Vec::new();
        let ghost before = self@;
        proof {
            assert(forall|command: Seq<char>, i: int| !is_at(queues@, command, i));
        }
        std::mem::swap(&mut self.queues, &mut queues);
        let taken = take_out(&mut queues, &command);
        proof {
            let after = InboxView { connected: before.connected, queues: queues_model(queues@) };
            assert(before.queues[command@] == messages_of(old(self).queues@, command@));
            if before.queues[command@].len() > 0 {
                let last = before.queues[command@].len() - 1;
                assert(before.queues[command@][last].command() == command@);
                assert(after =~= before.take(command@));
                law_take_keeps_wf(before, command@);
            } else {
                assert(after =~= before);
            }
        }
        self.queues = queues;
        match taken {
            Some(message) => RecvStep::Done(Some(message)),
            None => RecvStep::Wait(timeout),
        }
    }
}

/// An inbox stays well-formed when a message that can occur comes in.
pub proof fn law_deliver_keeps_wf(inbox: InboxView, message: MessageView)
    requires
        inbox.wf(),
        message.valid(),
    ensures
        inbox.deliver(message).wf(),
{
}

/// An inbox stays well-formed when a message is taken out.
pub proof fn law_take_keeps_wf(inbox: InboxView, command: Seq<char>)
    requires
        inbox.wf(),
        inbox.queues[command].len() > 0,
    ensures
        inbox.take(command).wf(),
{
}

/// What comes in is what is taken out next under its command, and taking it out leaves the
/// inbox as it was.
pub proof fn law_delivered_is_taken(inbox: InboxView, message: MessageView)
    requires
        inbox.wf(),
    ensures
        inbox.deliver(message).queues[message.command()].last() == message,
        inbox.deliver(message).take(message.command()) == inbox,
{
    let c = message.command();
    assert(inbox.deliver(message).queues[c].drop_last() =~= inbox.queues[c]);
    assert(inbox.deliver(message).take(c) =~= inbox);
}

/// Of two messages with the same command, the one that came in last is taken out first.
pub proof fn law_newest_first(inbox: InboxView, first: MessageView, second: MessageView)
    requires
        inbox.wf(),
        first.command() == second.command(),
    ensures
        inbox.deliver(first).deliver(second).queues[first.command()].last() == second,
        inbox.deliver(first).deliver(second).take(first.command()).queues[first.command()].last()
            == first,
{
    let c = first.command();
    assert(inbox.deliver(first).deliver(second).take(c).queues[c]
        =~= inbox.deliver(first).queues[c]);
}

/// A message that comes in, or is taken out, changes nothing under another command.
pub proof fn law_commands_do_not_mix(inbox: InboxView, message: MessageView, other: Seq<char>)
    requires
        inbox.wf(),
    ensures
        other != message.command() ==> {
            &&& inbox.deliver(message).queues[other] == inbox.queues[other]
            &&& inbox.take(message.command()).queues[other] == inbox.queues[other]
        },
{
}

/// A connection that was lost stays lost, and loses none of what came in before.
pub proof fn law_disconnect_is_final(inbox: InboxView, message: MessageView, command: Seq<char>)
    ensures
        !inbox.disconnect().connected,
        inbox.disconnect().queues == inbox.queues,
        inbox.deliver(message).connected == inbox.connected,
        inbox.take(command).connected == inbox.connected,
{
}

/// What can happen to an inbox
pub enum InboxEvent {
    /// A message comes in.
    Deliver(MessageView),
    /// Someone looks for a message of a command.
    Take(Seq<char>),
    /// The connection is lost.
    Disconnect,
}

impl InboxView {
    /// The inbox after an event; nothing changes where there is no message to take
    pub open spec fn on(self, event: InboxEvent) -> InboxView {
        match event {
            InboxEvent::Deliver(message) => self.deliver(message),
            InboxEvent::Take(command) => if self.queues[command].len() > 0 {
                self.take(command)
            } else {
                self
            },
            InboxEvent::Disconnect => self.disconnect(),
        }
    }

    /// The inbox after some events
    pub open spec fn after(self, events: Seq<InboxEvent>) -> InboxView
        decreases events.len(),
    {
        if events.len() == 0 {
            self
        } else {
            self.after(events.drop_last()).on(events.last())
        }
    }

    /// The messages of a command that were taken out over some events, in that order
    pub open spec fn taken(self, events: Seq<InboxEvent>, command: Seq<char>) -> Seq<MessageView>
        decreases events.len(),
    {
        if events.len() == 0 {
            seq![]
        } else {
            let earlier = self.taken(events.drop_last(), command);
            let queue = self.after(events.drop_last()).queues[command];
            if events.last() == InboxEvent::Take(command) && queue.len() > 0 {
                earlier.push(queue.last())
            } else {
                earlier
            }
        }
    }
}

/// The messages of a command that came in over some events, in that order
pub open spec fn delivered(events: Seq<InboxEvent>, command: Seq<char>) -> Seq<MessageView>
    decreases events.len(),
{
    if events.len() == 0 {
        seq![]
    } else {
        let earlier = delivered(events.drop_last(), command);
        match events.last() {
            InboxEvent::Deliver(message) if message.command() == command => earlier.push(message),
            _ => earlier,
        }
    }
}

/// An inbox stays well-formed over any events.
pub proof fn law_history_keeps_inbox_wf(inbox: InboxView, events: Seq<InboxEvent>)
    requires
        inbox.wf(),
        forall|i: int|
            0 <= i < events.len() ==> (#[trigger] events[i] matches InboxEvent::Deliver(message)
                ==> message.valid()),
    ensures
        inbox.after(events).wf(),
    decreases events.len(),
{
    if events.len() > 0 {
        assert forall|i: int| 0 <= i < events.drop_last().len() implies (
        #[trigger] events.drop_last()[i] matches InboxEvent::Deliver(message)
            ==> message.valid()) by {
            assert(events.drop_last()[i] == events[i]);
        }
        law_history_keeps_inbox_wf(inbox, events.drop_last());
        let before = inbox.after(events.drop_last());
        match events[events.len() - 1] {
            InboxEvent::Deliver(message) => {
                law_deliver_keeps_wf(before, message);
            },
            InboxEvent::Take(command) => {
                if before.queues[command].len() > 0 {
                    law_take_keeps_wf(before, command);
                }
            },
            InboxEvent::Disconnect => {},
        }
    }
}

/// No message is lost and none is handed out twice: over any events, what was there and what
/// came in is what was taken out and what is still there.
pub proof fn law_nothing_is_lost_or_doubled(
    inbox: InboxView,
    events: Seq<InboxEvent>,
    command: Seq<char>,
)
    ensures
        inbox.queues[command].to_multiset().add(delivered(events, command).to_multiset())
            == inbox.taken(events, command).to_multiset().add(
            inbox.after(events).queues[command].to_multiset(),
        ),
    decreases events.len(),
{
    broadcast use vstd::seq_lib::group_to_multiset_ensures;

    let there = inbox.queues[command].to_multiset();
    let came = delivered(events, command);
    let gone = inbox.taken(events, command);
    let left = inbox.after(events).queues[command];
    if events.len() == 0 {
        assert(there.add(came.to_multiset()) =~= there);
        assert(gone.to_multiset().add(there) =~= there);
    } else {
        let rest = events.drop_last();
        law_nothing_is_lost_or_doubled(inbox, rest, command);
        let queue = inbox.after(rest).queues[command];
        let earlier_came = delivered(rest, command);
        let earlier_gone = inbox.taken(rest, command);
        match events.last() {
            InboxEvent::Deliver(message) if message.command() == command => {
                assert(left == queue.push(message));
                assert(came == earlier_came.push(message));
                assert(gone == earlier_gone);
                assert(there.add(came.to_multiset()) =~= there.add(
                    earlier_came.to_multiset(),
                ).insert(message));
                assert(gone.to_multiset().add(left.to_multiset()) =~= gone.to_multiset().add(
                    queue.to_multiset(),
                ).insert(message));
            },
            InboxEvent::Take(other) if other == command && queue.len() > 0 => {
                assert(left == queue.drop_last());
                assert(queue =~= left.push(queue.last()));
                assert(came == earlier_came);
                assert(gone == earlier_gone.push(queue.last()));
                assert(earlier_gone.to_multiset().add(queue.to_multiset())
                    =~= gone.to_multiset().add(left.to_multiset()));
            },
            _ => {
                assert(left == queue);
                assert(came == earlier_came);
                assert(gone == earlier_gone);
            },
        }
    }
}

/// A connection that was lost is lost after any further events.
pub proof fn law_lost_connection_stays_lost(inbox: InboxView, events: Seq<InboxEvent>)
    ensures
        !inbox.connected ==> !inbox.after(events).connected,
    decreases events.len(),
{
    if events.len() > 0 {
        law_lost_connection_stays_lost(inbox, events.drop_last());
    }
}

/// The inbox of a new connection is connected, and nothing waits in it.
pub proof fn law_new_inbox_is_empty(command: Seq<char>)
    ensures
        InboxView::empty().connected,
        InboxView::empty().wf(),
        InboxView::empty().queues[command].len() == 0,
{
}

/// A message that comes in stands last in the queue of its command, after all that waited
/// there.
pub proof fn law_delivered_stands_last(inbox: InboxView, message: MessageView)
    ensures
        inbox.deliver(message).queues[message.command()].len()
            == inbox.queues[message.command()].len() + 1,
        inbox.deliver(message).queues[message.command()].last() == message,
        forall|i: int|
            0 <= i < inbox.queues[message.command()].len() ==> #[trigger] inbox.deliver(
                message,
            ).queues[message.command()][i] == inbox.queues[message.command()][i],
{
}

/// Taking a message out takes the last one of its command and leaves all that came before it.
pub proof fn law_taking_leaves_the_rest(inbox: InboxView, command: Seq<char>)
    requires
        inbox.queues[command].len() > 0,
    ensures
        inbox.take(command).queues[command].push(inbox.queues[command].last())
            == inbox.queues[command],
{
    assert(inbox.take(command).queues[command].push(inbox.queues[command].last())
        =~= inbox.queues[command]);
}

/// In an inbox that is well-formed, what waits under a command has that command.
pub proof fn law_queues_hold_their_command(inbox: InboxView, command: Seq<char>, i: int)
    requires
        inbox.wf(),
        0 <= i < inbox.queues[command].len(),
    ensures
        inbox.queues[command][i].command() == command,
        inbox.queues[command][i].valid(),
{
}

} // verus!
