//! The connection-side dispatch engine: inbound messages are classified into
//! a FIFO queue, and a pull iterator drains it, asking the transport for a
//! blocking read-and-dispatch step only when the queue is empty.
use vstd::prelude::*;
use std::collections::VecDeque;
use crate::message::{Error, Message, MessageType};

verus! {

/// Which bus to connect to.
#[derive(Debug, PartialEq, Eq, Structural, Clone, Copy)]
pub enum BusType {
    Session,
    System,
    Starter,
}

/// What the iterator yields: a tick when nothing arrived within the timeout,
/// or an inbound method call or signal.
#[derive(Debug)]
pub enum ConnectionItem {
    Nothing,
    MethodCall(Message),
    Signal(Message),
}

/// Whether a callback took a message, or leaves it to the transport.
#[derive(Debug, PartialEq, Eq, Structural, Clone, Copy)]
pub enum HandlerResult {
    Handled,
    NotYetHandled,
}

/// Whether an inbound message is queued: only method calls and signals are;
/// replies and errors are left to the transport.
pub open spec fn is_queued(m: Message) -> bool {
    m@.msg_type == MessageType::Signal || m@.msg_type == MessageType::MethodCall
}

/// The item a queued message becomes.
pub open spec fn item_of(m: Message) -> ConnectionItem {
    if m@.msg_type == MessageType::Signal {
        ConnectionItem::Signal(m)
    } else {
        ConnectionItem::MethodCall(m)
    }
}

/// The queue after the classification callback has seen `m`.
pub open spec fn deliver(q: Seq<ConnectionItem>, m: Message) -> Seq<ConnectionItem> {
    if is_queued(m) {
        q.push(item_of(m))
    } else {
        q
    }
}

/// The queue after the classification callback has seen `ms`, in order.
pub open spec fn deliver_all(q: Seq<ConnectionItem>, ms: Seq<Message>) -> Seq<ConnectionItem>
    decreases ms.len(),
{
    if ms.len() == 0 {
        q
    } else {
        deliver(deliver_all(q, ms.drop_last()), ms.last())
    }
}

/// An item whose kind agrees with the kind of the message it carries.
pub open spec fn well_kinded(it: ConnectionItem) -> bool {
    match it {
        ConnectionItem::Signal(m) => m@.msg_type == MessageType::Signal,
        ConnectionItem::MethodCall(m) => m@.msg_type == MessageType::MethodCall,
        ConnectionItem::Nothing => false,
    }
}

/// The state of a connection that this layer owns: its queue of inbound items.
pub struct Connection {
    pending_items: VecDeque<ConnectionItem>,
}

impl View for Connection {
    type V = Seq<ConnectionItem>;

    closed spec fn view(&self) -> Seq<ConnectionItem> {
        self.pending_items@
    }
}

/// The iterator's state: its timeout, and whether the connection is gone.
pub struct ItemsView {
    pub timeout_ms: i32,
    pub exhausted: bool,
}

/// A pull iterator over a connection's inbound items.
pub struct ConnectionItems {
    timeout_ms: i32,
    exhausted: bool,
}

impl View for ConnectionItems {
    type V = ItemsView;

    closed spec fn view(&self) -> ItemsView {
        ItemsView { timeout_ms: self.timeout_ms, exhausted: self.exhausted }
    }
}

/// One poll of the iterator: an answer now, or a request that the transport
/// run one blocking read-and-dispatch step with the given timeout, after which
/// `ConnectionItems::dispatched` gives the answer.
#[derive(Debug)]
pub enum Poll {
    Ready(Option<ConnectionItem>),
    Dispatch(i32),
}

impl Connection {
    /// A connection state with an empty queue.
    pub fn new() -> (r: Connection)
        ensures
            r@ == Seq::<ConnectionItem>::empty(),
    {
        Connection { pending_items: VecDeque::new() }
    }

    /// The number of items waiting in the queue.
    pub fn pending(&self) -> (r: usize)
        ensures
            r == self@.len(),
    {
        self.pending_items.len()
    }

    /// The classification callback, run by the transport on every inbound
    /// message: signals and method calls are queued, anything else is left
    /// to the transport's own reply handling.
    pub fn filter_message(&mut self, m: Message) -> (r: HandlerResult)
        ensures
            final(self)@ == deliver(old(self)@, m),
            r == (if is_queued(m) {
                HandlerResult::Handled
            } else {
                HandlerResult::NotYetHandled
            }),
    {
        let t = m.msg_type();
        if t == MessageType::Signal {
            self.pending_items.push_back(ConnectionItem::Signal(m));
            HandlerResult::Handled
        } else if t == MessageType::MethodCall {
            self.pending_items.push_back(ConnectionItem::MethodCall(m));
            HandlerResult::Handled
        } else {
            HandlerResult::NotYetHandled
        }
    }

    /// The callback for messages addressed to a registered object path: each
    /// is queued as a method call.
    pub fn object_path_message(&mut self, m: Message) -> (r: HandlerResult)
        ensures
            final(self)@ == old(self)@.push(ConnectionItem::MethodCall(m)),
            r == HandlerResult::Handled,
    {
        self.pending_items.push_back(ConnectionItem::MethodCall(m));
        HandlerResult::Handled
    }

    /// An iterator over inbound items, whose dispatch steps wait at most
    /// `timeout_ms` milliseconds (zero or less: without limit).
    pub fn iter(&mut self, timeout_ms: i32) -> (r: ConnectionItems)
        ensures
            final(self)@ == old(self)@,
            r@ == (ItemsView { timeout_ms, exhausted: false }),
    {
        ConnectionItems { timeout_ms, exhausted: false }
    }
}

impl ConnectionItems {
    /// Polls the iterator: a spent iterator yields nothing; otherwise the
    /// front of the queue is yielded, and an empty queue asks for a dispatch
    /// step.
    pub fn next(&mut self, c: &mut Connection) -> (r: Poll)
        ensures
            final(self)@ == old(self)@,
            old(self)@.exhausted ==> (r matches Poll::Ready(None) && final(c)@ == old(c)@),
            !old(self)@.exhausted && old(c)@.len() > 0 ==> (r matches Poll::Ready(Some(it))
                && it == old(c)@[0] && final(c)@ == old(c)@.subrange(1, old(c)@.len() as int)),
            !old(self)@.exhausted && old(c)@.len() == 0 ==> (r matches Poll::Dispatch(t)
                && t == old(self)@.timeout_ms && final(c)@ == old(c)@),
    {
        if self.exhausted {
            return Poll::Ready(None);
        }
        match c.pending_items.pop_front() {
            Some(it) => Poll::Ready(Some(it)),
            None => Poll::Dispatch(self.timeout_ms),
        }
    }

    /// The answer after a dispatch step, which reported whether the
    /// connection is still open: the front of the queue if the step filled
    /// it; else, on a closed connection, nothing, for good; else a tick.
    pub fn dispatched(&mut self, c: &mut Connection, alive: bool) -> (r: Option<ConnectionItem>)
        ensures
            old(self)@.exhausted ==> (r is None && final(c)@ == old(c)@ && final(self)@ == old(self)@),
            !old(self)@.exhausted && old(c)@.len() > 0 ==> (r == Some(old(c)@[0]) && final(c)@
                == old(c)@.subrange(1, old(c)@.len() as int) && final(self)@ == old(self)@),
            !old(self)@.exhausted && old(c)@.len() == 0 && !alive ==> (r is None && final(c)@
                == old(c)@ && final(self)@ == (ItemsView { exhausted: true, ..old(self)@ })),
            !old(self)@.exhausted && old(c)@.len() == 0 && alive ==> (r == Some(
                ConnectionItem::Nothing,
            ) && final(c)@ == old(c)@ && final(self)@ == old(self)@),
    {
        if self.exhausted {
            return None;
        }
        match c.pending_items.pop_front() {
            Some(it) => Some(it),
            None => {
                if alive {
                    Some(ConnectionItem::Nothing)
                } else {
                    self.exhausted = true;
                    None
                }
            },
        }
    }
}

/// Queue ordering: whatever messages the transport delivers, in whatever mix
/// of kinds, the queue grows by exactly the signals and method calls among
/// them, in delivery order, each under the item of its own kind; replies and
/// errors never enter it.
pub proof fn lemma_queue_order(q: Seq<ConnectionItem>, ms: Seq<Message>)
    ensures
        deliver_all(q, ms) == q + ms.filter(|m: Message| is_queued(m)).map_values(|m: Message| item_of(m)),
        forall|i: int| 0 <= i < deliver_all(q, ms).len() - q.len() ==> well_kinded(
            #[trigger] deliver_all(q, ms)[q.len() + i],
        ),
    decreases ms.len(),
{
    let f = |m: Message| is_queued(m);
    let g = |m: Message| item_of(m);
    if ms.len() == 0 {
        reveal(Seq::filter);
        assert(ms.filter(f) =~= Seq::<Message>::empty());
        assert(q + ms.filter(f).map_values(g) =~= q);
    } else {
        let init = ms.drop_last();
        lemma_queue_order(q, init);
        assert(ms.filter(f) == if f(ms.last()) {
            init.filter(f).push(ms.last())
        } else {
            init.filter(f)
        }) by {
            reveal(Seq::filter);
        }
        if f(ms.last()) {
            assert(ms.filter(f).map_values(g) =~= init.filter(f).map_values(g).push(g(ms.last())));
            assert(q + ms.filter(f).map_values(g) =~= (q + init.filter(f).map_values(g)).push(
                g(ms.last()),
            ));
        }
    }
    let r = deliver_all(q, ms);
    assert forall|i: int| 0 <= i < r.len() - q.len() implies well_kinded(#[trigger] r[q.len() + i]) by {
        let tail = ms.filter(f).map_values(g);
        assert(r[q.len() + i] == tail[i]);
        ms.lemma_filter_pred(f, i);
    }
}

/// Flags of a name request.
#[derive(Debug, PartialEq, Eq, Structural, Clone, Copy)]
pub enum NameFlag {
    AllowReplacement,
    ReplaceExisting,
    DoNotQueue,
}

impl NameFlag {
    /// The flag's bit in a request's flag word.
    pub fn bits(self) -> (r: u32)
        ensures
            r == match self {
                NameFlag::AllowReplacement => 1u32,
                NameFlag::ReplaceExisting => 2u32,
                NameFlag::DoNotQueue => 4u32,
            },
    {
        match self {
            NameFlag::AllowReplacement => 1,
            NameFlag::ReplaceExisting => 2,
            NameFlag::DoNotQueue => 4,
        }
    }
}

/// The bus's answer to a name request.
#[derive(Debug, PartialEq, Eq, Structural, Clone, Copy)]
pub enum RequestNameReply {
    PrimaryOwner,
    InQueue,
    Exists,
    AlreadyOwner,
}

/// The bus's answer to a name release.
#[derive(Debug, PartialEq, Eq, Structural, Clone, Copy)]
pub enum ReleaseNameReply {
    Released,
    NonExistent,
    NotOwner,
}

/// The outcome of a name request whose call returned `code` and filled in
/// the error record `e`: codes 1 to 4 are the bus's answers; any other code
/// (the call's failure code is -1) gives the error.
pub fn request_name_reply(code: i32, e: Error) -> (r: Result<RequestNameReply, Error>)
    ensures
        code == 1 ==> r == Ok::<RequestNameReply, Error>(RequestNameReply::PrimaryOwner),
        code == 2 ==> r == Ok::<RequestNameReply, Error>(RequestNameReply::InQueue),
        code == 3 ==> r == Ok::<RequestNameReply, Error>(RequestNameReply::Exists),
        code == 4 ==> r == Ok::<RequestNameReply, Error>(RequestNameReply::AlreadyOwner),
        !(1 <= code <= 4) ==> r == Err::<RequestNameReply, Error>(e),
{
    if code == 1 {
        Ok(RequestNameReply::PrimaryOwner)
    } else if code == 2 {
        Ok(RequestNameReply::InQueue)
    } else if code == 3 {
        Ok(RequestNameReply::Exists)
    } else if code == 4 {
        Ok(RequestNameReply::AlreadyOwner)
    } else {
        Err(e)
    }
}

/// The outcome of a name release whose call returned `code` and filled in
/// the error record `e`: codes 1 to 3 are the bus's answers; any other code
/// gives the error.
pub fn release_name_reply(code: i32, e: Error) -> (r: Result<ReleaseNameReply, Error>)
    ensures
        code == 1 ==> r == Ok::<ReleaseNameReply, Error>(ReleaseNameReply::Released),
        code == 2 ==> r == Ok::<ReleaseNameReply, Error>(ReleaseNameReply::NonExistent),
        code == 3 ==> r == Ok::<ReleaseNameReply, Error>(ReleaseNameReply::NotOwner),
        !(1 <= code <= 3) ==> r == Err::<ReleaseNameReply, Error>(e),
{
    if code == 1 {
        Ok(ReleaseNameReply::Released)
    } else if code == 2 {
        Ok(ReleaseNameReply::NonExistent)
    } else if code == 3 {
        Ok(ReleaseNameReply::NotOwner)
    } else {
        Err(e)
    }
}

/// The outcome of a call that reports only through the error record `e`
/// (adding or removing a match rule): success exactly when no error name
/// was set.
pub fn error_result(e: Error) -> (r: Result<(), Error>)
    ensures
        e@.name is None ==> r is Ok,
        e@.name is Some ==> r == Err::<(), Error>(e),
{
    if e.name().is_some() {
        Err(e)
    } else {
        Ok(())
    }
}

} // verus!
