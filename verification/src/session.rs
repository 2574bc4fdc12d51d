//! What a conversation with a peer is made of: what to do next, and what came of it.
//!
//! A conversation is a state. It says which action is next; whoever drives it performs the action
//! and reports one event, which moves the state on. An event that does not answer the action at
//! hand changes nothing.
use crate::address;
use crate::address::NODE_LIBRE_RELAY;
use crate::tx::Txid;
use crate::wire::{InvItem, Message, MessageView, Request, RequestView};
use vstd::prelude::*;

verus! {

/// Seconds that a connection, or one message, may take.
pub const CONNECTION_TIMEOUT_SECS: u64 = 12;

/// Seconds within which a peer must introduce itself.
pub const VERSION_TIMEOUT_SECS: u64 = 5;

/// How long to wait for messages.
#[derive(Clone, Copy, Debug, PartialEq, Eq, Structural)]
pub enum Patience {
    /// So many seconds for each message.
    Each(u64),
    /// So many seconds for all messages until the next action of another sort.
    Total(u64),
}

/// What to do next.
#[derive(Debug)]
pub enum Action {
    /// Connect, within so many seconds.
    Connect { timeout_secs: u64 },
    /// Send a message.
    Send(Request),
    /// Wait for a message.
    Receive(Patience),
    /// Hang up: the conversation is over.
    Finish,
}

/// What an [`Action`] says.
pub enum ActionView {
    Connect { timeout_secs: u64 },
    Send(RequestView),
    Receive(Patience),
    Finish,
}

impl View for Action {
    type V = ActionView;

    open spec fn view(&self) -> ActionView {
        match self {
            Action::Connect { timeout_secs } => ActionView::Connect { timeout_secs: *timeout_secs },
            Action::Send(request) => ActionView::Send(request@),
            Action::Receive(patience) => ActionView::Receive(*patience),
            Action::Finish => ActionView::Finish,
        }
    }
}

/// What came of an action.
#[derive(Debug)]
pub enum PeerEvent {
    /// The connection stands.
    Connected,
    /// The message was sent.
    Sent,
    /// A message came.
    Received(Message),
    /// The time ran out.
    TimedOut,
    /// The action failed.
    Failed,
}

/// What a [`PeerEvent`] says.
pub enum PeerEventView {
    Connected,
    Sent,
    Received(MessageView),
    TimedOut,
    Failed,
}

impl View for PeerEvent {
    type V = PeerEventView;

    open spec fn view(&self) -> PeerEventView {
        match self {
            PeerEvent::Connected => PeerEventView::Connected,
            PeerEvent::Sent => PeerEventView::Sent,
            PeerEvent::Received(message) => PeerEventView::Received(message@),
            PeerEvent::TimedOut => PeerEventView::TimedOut,
            PeerEvent::Failed => PeerEventView::Failed,
        }
    }
}

/// Why a conversation failed.
#[derive(Clone, Copy, Debug, PartialEq, Eq, Structural)]
pub enum PeerError {
    /// No connection in time.
    ConnectTimeout,
    /// No connection.
    Connect,
    /// A message could not be sent.
    Send,
    /// No message could be read where the peer's introduction was due.
    Read,
    /// The peer did not introduce itself in time.
    VersionTimeout,
}

/// What came of the attempt to connect: `None` where the event is no answer to it.
pub open spec fn connect_outcome(event: PeerEventView) -> Option<Result<(), PeerError>> {
    match event {
        PeerEventView::Connected => Some(Ok(())),
        PeerEventView::TimedOut => Some(Err(PeerError::ConnectTimeout)),
        PeerEventView::Failed => Some(Err(PeerError::Connect)),
        _ => None,
    }
}

/// What came of sending a message: `None` where the event is no answer to it.
pub open spec fn send_outcome(event: PeerEventView) -> Option<Result<(), PeerError>> {
    match event {
        PeerEventView::Sent => Some(Ok(())),
        PeerEventView::Failed => Some(Err(PeerError::Send)),
        _ => None,
    }
}

/// What came of waiting for the peer's introduction: the services that it offers. Until it comes,
/// every other message is passed over.
pub open spec fn version_outcome(event: PeerEventView) -> Option<Result<u64, PeerError>> {
    match event {
        PeerEventView::Received(MessageView::Version { services, .. }) => Some(Ok(services)),
        PeerEventView::TimedOut => Some(Err(PeerError::VersionTimeout)),
        PeerEventView::Failed => Some(Err(PeerError::Read)),
        _ => None,
    }
}

/// What came of the attempt to connect.
pub fn connect_result(event: &PeerEvent) -> (r: Option<Result<(), PeerError>>)
    ensures
        r == connect_outcome(event@),
{
    match event {
        PeerEvent::Connected => Some(Ok(())),
        PeerEvent::TimedOut => Some(Err(PeerError::ConnectTimeout)),
        PeerEvent::Failed => Some(Err(PeerError::Connect)),
        _ => None,
    }
}

/// What came of sending a message.
pub fn send_result(event: &PeerEvent) -> (r: Option<Result<(), PeerError>>)
    ensures
        r == send_outcome(event@),
{
    match event {
        PeerEvent::Sent => Some(Ok(())),
        PeerEvent::Failed => Some(Err(PeerError::Send)),
        _ => None,
    }
}

/// What came of waiting for the peer's introduction.
pub fn wait_for_version(event: &PeerEvent) -> (r: Option<Result<u64, PeerError>>)
    ensures
        r == version_outcome(event@),
{
    match event {
        PeerEvent::Received(Message::Version { services, .. }) => Some(Ok(*services)),
        PeerEvent::TimedOut => Some(Err(PeerError::VersionTimeout)),
        PeerEvent::Failed => Some(Err(PeerError::Read)),
        _ => None,
    }
}

/// Whether an inventory lists a transaction.
pub open spec fn lists(items: Seq<InvItem>, txid: Txid) -> bool {
    items.contains(InvItem::Transaction(txid))
}

/// Whether an inventory lists a transaction.
pub fn lists_transaction(items: &Vec<InvItem>, txid: &Txid) -> (r: bool)
    ensures
        r == lists(items@, *txid),
{
    for i in 0..items.len()
        invariant
            forall|j: int| 0 <= j < i ==> items@[j] != InvItem::Transaction(*txid),
    {
        if let InvItem::Transaction(id) = &items[i] {
            if id.same(txid) {
                assert(items@[i as int] == InvItem::Transaction(*txid));
                return true;
            }
        }
    }
    false
}

/// Whether an event is the introduction of a peer that offers the relay service.
pub open spec fn introduces_libre_peer(event: PeerEventView) -> bool {
    event matches PeerEventView::Received(MessageView::Version { services, .. })
        && address::offers(services, NODE_LIBRE_RELAY)
}

/// What an action, an event and an inventory say, told from what they hold.
pub proof fn law_session_views(
    timeout_secs: u64,
    request: Request,
    patience: Patience,
    message: Message,
    items: Seq<InvItem>,
    txid: Txid,
)
    ensures
        (Action::Connect { timeout_secs })@ == (ActionView::Connect { timeout_secs }),
        Action::Send(request)@ == ActionView::Send(request@),
        Action::Receive(patience)@ == ActionView::Receive(patience),
        Action::Finish@ == ActionView::Finish,
        PeerEvent::Connected@ == PeerEventView::Connected,
        PeerEvent::Sent@ == PeerEventView::Sent,
        PeerEvent::Received(message)@ == PeerEventView::Received(message@),
        PeerEvent::TimedOut@ == PeerEventView::TimedOut,
        PeerEvent::Failed@ == PeerEventView::Failed,
        lists(items, txid) <==> exists|i: int|
            0 <= i < items.len() && #[trigger] items[i] == InvItem::Transaction(txid),
{
}

/// What comes of waiting for an answer is decided by the event alone: a connection by being made,
/// running out of time or failing; a message that is sent by going out or failing; and the peer's
/// introduction by coming, running out of time or failing, whatever else the peer says meanwhile.
pub proof fn law_outcomes(event: PeerEventView)
    ensures
        connect_outcome(event) == Some(Ok::<(), PeerError>(())) <==> event is Connected,
        connect_outcome(event) == Some(Err::<(), PeerError>(PeerError::ConnectTimeout))
            <==> event is TimedOut,
        connect_outcome(event) == Some(Err::<(), PeerError>(PeerError::Connect))
            <==> event is Failed,
        connect_outcome(event) is None <==> event is Sent || event is Received,
        send_outcome(event) == Some(Ok::<(), PeerError>(())) <==> event is Sent,
        send_outcome(event) == Some(Err::<(), PeerError>(PeerError::Send)) <==> event is Failed,
        send_outcome(event) is None <==> !(event is Sent || event is Failed),
        forall|services: u64|
            version_outcome(event) == Some(Ok::<u64, PeerError>(services)) <==> (exists|agent: Seq<
                char,
            >|
                event == PeerEventView::Received(
                    MessageView::Version { services, user_agent: agent },
                )),
        version_outcome(event) == Some(Err::<u64, PeerError>(PeerError::VersionTimeout))
            <==> event is TimedOut,
        version_outcome(event) == Some(Err::<u64, PeerError>(PeerError::Read))
            <==> event is Failed,
        version_outcome(event) is None <==> {
            ||| event is Connected
            ||| event is Sent
            ||| (event matches PeerEventView::Received(message) && !(message is Version))
        },
{
    assert forall|services: u64|
        version_outcome(event) == Some(Ok::<u64, PeerError>(services)) implies (exists|agent: Seq<
            char,
        >|
            event == PeerEventView::Received(
                MessageView::Version { services, user_agent: agent },
            )) by {
        if let PeerEventView::Received(MessageView::Version { services: s, user_agent }) = event {
            assert(event == PeerEventView::Received(MessageView::Version { services, user_agent }));
        }
    }
}

} // verus!
