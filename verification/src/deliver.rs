//! Delivery of a transaction to one peer.
use crate::address;
use crate::address::{has_services, NetworkAddress, NetworkAddressView, NODE_LIBRE_RELAY};
use crate::session;
use crate::session::{
    connect_result, lists_transaction, send_result, wait_for_version, Action, ActionView, Patience,
    PeerError, PeerEvent, PeerEventView, CONNECTION_TIMEOUT_SECS, VERSION_TIMEOUT_SECS,
};
use crate::tor::{tor_only_enabled, TorMode};
use crate::tx::{Tx, TxView, Txid};
use crate::wire::{InvItem, Message, MessageView, Request, RequestView};
use vstd::prelude::*;

verus! {

/// How far a delivery has come.
#[derive(Clone, Copy, Debug, PartialEq, Eq)]
pub enum DeliveryStage {
    Connecting,
    Introducing,
    AwaitingVersion,
    SendingVerack,
    SendingTx,
    /// Asking for the transaction back.
    SendingGetData,
    /// Waiting for a sign that the peer has the transaction.
    AwaitingReceipt,
    /// Over: whether the peer has the transaction, or why that was not found out.
    Done(Result<bool, PeerError>),
}

/// What a [`Delivery`] says.
pub struct DeliveryView {
    pub tx: TxView,
    pub relay: bool,
    pub stage: DeliveryStage,
}

/// The delivery of a transaction to one peer.
#[derive(Debug)]
pub struct Delivery {
    tx: Tx,
    relay: bool,
    stage: DeliveryStage,
}

impl View for Delivery {
    type V = DeliveryView;

    closed spec fn view(&self) -> DeliveryView {
        DeliveryView { tx: self.tx@, relay: self.relay, stage: self.stage }
    }
}

/// Where a delivery to `address` begins: it is over at once where the address must not be spoken
/// to.
pub open spec fn first_stage(address: NetworkAddressView, tor_only: bool) -> DeliveryStage {
    if address::allowed(address, tor_only) {
        DeliveryStage::Connecting
    } else {
        DeliveryStage::Done(Ok(false))
    }
}

/// The stage of a delivery to `address` that starts: it is over at once where the address must no
/// longer be spoken to.
pub open spec fn started(
    stage: DeliveryStage,
    address: NetworkAddressView,
    tor_only: bool,
) -> DeliveryStage {
    if stage is Connecting && !address::allowed(address, tor_only) {
        DeliveryStage::Done(Ok(false))
    } else {
        stage
    }
}

/// The action that is next at a stage.
pub open spec fn stage_action(tx: TxView, relay: bool, stage: DeliveryStage) -> ActionView {
    match stage {
        DeliveryStage::Connecting => ActionView::Connect { timeout_secs: CONNECTION_TIMEOUT_SECS },
        DeliveryStage::Introducing => ActionView::Send(RequestView::Version { relay }),
        DeliveryStage::AwaitingVersion => ActionView::Receive(
            Patience::Total(VERSION_TIMEOUT_SECS),
        ),
        DeliveryStage::SendingVerack => ActionView::Send(RequestView::Verack),
        DeliveryStage::SendingTx => ActionView::Send(RequestView::Tx(tx)),
        DeliveryStage::SendingGetData => ActionView::Send(RequestView::GetData(seq![tx.txid])),
        DeliveryStage::AwaitingReceipt => ActionView::Receive(
            Patience::Each(CONNECTION_TIMEOUT_SECS),
        ),
        DeliveryStage::Done(_) => ActionView::Finish,
    }
}

/// Whether a message shows that the peer has the transaction: it sends it, announces it, or
/// answers that it has no such transaction to send.
pub open spec fn confirms(message: MessageView, txid: Txid) -> bool {
    match message {
        MessageView::Tx(tx) => tx.txid == txid,
        MessageView::NotFound(items) => session::lists(items, txid),
        MessageView::Inv(items) => session::lists(items, txid),
        _ => false,
    }
}

/// The stage after sending, `next` if it went well.
pub open spec fn after_send(
    event: PeerEventView,
    stage: DeliveryStage,
    next: DeliveryStage,
) -> DeliveryStage {
    match session::send_outcome(event) {
        Some(Ok(_)) => next,
        Some(Err(error)) => DeliveryStage::Done(Err(error)),
        None => stage,
    }
}

/// The stage after an event.
pub open spec fn next_stage(
    txid: Txid,
    stage: DeliveryStage,
    event: PeerEventView,
) -> DeliveryStage {
    match stage {
        DeliveryStage::Connecting => match session::connect_outcome(event) {
            Some(Ok(_)) => DeliveryStage::Introducing,
            Some(Err(error)) => DeliveryStage::Done(Err(error)),
            None => stage,
        },
        DeliveryStage::Introducing => after_send(event, stage, DeliveryStage::AwaitingVersion),
        DeliveryStage::AwaitingVersion => match session::version_outcome(event) {
            Some(Ok(services)) => if address::offers(services, NODE_LIBRE_RELAY) {
                DeliveryStage::SendingVerack
            } else {
                DeliveryStage::Done(Ok(false))
            },
            Some(Err(error)) => DeliveryStage::Done(Err(error)),
            None => stage,
        },
        DeliveryStage::SendingVerack => after_send(event, stage, DeliveryStage::SendingTx),
        DeliveryStage::SendingTx => after_send(event, stage, DeliveryStage::SendingGetData),
        DeliveryStage::SendingGetData => after_send(event, stage, DeliveryStage::AwaitingReceipt),
        DeliveryStage::AwaitingReceipt => match event {
            PeerEventView::Received(message) => if confirms(message, txid) {
                DeliveryStage::Done(Ok(true))
            } else {
                stage
            },
            PeerEventView::TimedOut => DeliveryStage::Done(Ok(false)),
            PeerEventView::Failed => DeliveryStage::Done(Ok(false)),
            _ => stage,
        },
        DeliveryStage::Done(_) => stage,
    }
}

/// Whether a message shows that the peer has the transaction.
fn confirms_delivery(message: &Message, txid: &Txid) -> (r: bool)
    ensures
        r == confirms(message@, *txid),
{
    match message {
        Message::Tx(tx) => tx.txid().same(txid),
        Message::NotFound(items) => lists_transaction(items, txid),
        Message::Inv(items) => lists_transaction(items, txid),
        _ => false,
    }
}

/// Starts the delivery of `tx` to the peer at `addr`.
pub fn deliver_poop_tx(addr: &NetworkAddress, tx: Tx, mode: &TorMode, relay: bool) -> (d: Delivery)
    ensures
        d@ == (DeliveryView { tx: tx@, relay, stage: first_stage(addr@, mode.only) }),
{
    if tor_only_enabled(mode) && addr.is_clearnet() {
        Delivery { tx, relay, stage: DeliveryStage::Done(Ok(false)) }
    } else {
        Delivery { tx, relay, stage: DeliveryStage::Connecting }
    }
}

impl Delivery {
    /// Starts the delivery to the peer at `addr`, who may have become one not to be spoken to since
    /// it was planned.
    pub fn start(&mut self, addr: &NetworkAddress, mode: &TorMode)
        ensures
            final(self)@ == (DeliveryView {
                stage: started(old(self)@.stage, addr@, mode.only),
                ..old(self)@
            }),
    {
        if let DeliveryStage::Connecting = self.stage {
            if tor_only_enabled(mode) && addr.is_clearnet() {
                self.stage = DeliveryStage::Done(Ok(false));
            }
        }
    }

    /// What to do next.
    pub fn action(&self) -> (action: Action)
        ensures
            action@ == stage_action(self@.tx, self@.relay, self@.stage),
    {
        match self.stage {
            DeliveryStage::Connecting => Action::Connect { timeout_secs: CONNECTION_TIMEOUT_SECS },
            DeliveryStage::Introducing => Action::Send(Request::Version { relay: self.relay }),
            DeliveryStage::AwaitingVersion => Action::Receive(
                Patience::Total(VERSION_TIMEOUT_SECS),
            ),
            DeliveryStage::SendingVerack => Action::Send(Request::Verack),
            DeliveryStage::SendingTx => Action::Send(Request::Tx(self.tx.duplicate())),
            DeliveryStage::SendingGetData => {
                let mut ids: Vec<Txid> = Vec::new();
                ids.push(self.tx.txid());
                assert(ids@ =~= seq![self@.tx.txid]);
                Action::Send(Request::GetData(ids))
            },
            DeliveryStage::AwaitingReceipt => Action::Receive(
                Patience::Each(CONNECTION_TIMEOUT_SECS),
            ),
            DeliveryStage::Done(_) => Action::Finish,
        }
    }

    /// Moves on with what came of the action.
    pub fn on_event(&mut self, event: &PeerEvent)
        ensures
            final(self)@ == (DeliveryView {
                stage: next_stage(old(self)@.tx.txid, old(self)@.stage, event@),
                ..old(self)@
            }),
    {
        let stage = self.stage;
        let txid = self.tx.txid();
        let next = match stage {
            DeliveryStage::Connecting => match connect_result(event) {
                Some(Ok(_)) => DeliveryStage::Introducing,
                Some(Err(error)) => DeliveryStage::Done(Err(error)),
                None => stage,
            },
            DeliveryStage::Introducing => sent(event, stage, DeliveryStage::AwaitingVersion),
            DeliveryStage::AwaitingVersion => match wait_for_version(event) {
                Some(Ok(services)) => if has_services(services, NODE_LIBRE_RELAY) {
                    DeliveryStage::SendingVerack
                } else {
                    DeliveryStage::Done(Ok(false))
                },
                Some(Err(error)) => DeliveryStage::Done(Err(error)),
                None => stage,
            },
            DeliveryStage::SendingVerack => sent(event, stage, DeliveryStage::SendingTx),
            DeliveryStage::SendingTx => sent(event, stage, DeliveryStage::SendingGetData),
            DeliveryStage::SendingGetData => sent(event, stage, DeliveryStage::AwaitingReceipt),
            DeliveryStage::AwaitingReceipt => match event {
                PeerEvent::Received(message) => if confirms_delivery(message, &txid) {
                    DeliveryStage::Done(Ok(true))
                } else {
                    stage
                },
                PeerEvent::TimedOut => DeliveryStage::Done(Ok(false)),
                PeerEvent::Failed => DeliveryStage::Done(Ok(false)),
                _ => stage,
            },
            DeliveryStage::Done(_) => stage,
        };
        self.stage = next;
    }

    /// What came of the delivery; `None` while it is not over.
    pub fn outcome(&self) -> (r: Option<Result<bool, PeerError>>)
        ensures
            r == match self@.stage {
                DeliveryStage::Done(result) => Some(result),
                _ => None,
            },
    {
        match self.stage {
            DeliveryStage::Done(result) => Some(result),
            _ => None,
        }
    }
}

/// The stage after sending, `next` if it went well.
fn sent(event: &PeerEvent, stage: DeliveryStage, next: DeliveryStage) -> (r: DeliveryStage)
    ensures
        r == after_send(event@, stage, next),
{
    match send_result(event) {
        Some(Ok(_)) => next,
        Some(Err(error)) => DeliveryStage::Done(Err(error)),
        None => stage,
    }
}

/// The stage after a row of events.
pub open spec fn stage_after(
    txid: Txid,
    first: DeliveryStage,
    events: Seq<PeerEventView>,
) -> DeliveryStage
    decreases events.len(),
{
    if events.len() == 0 {
        first
    } else {
        next_stage(txid, stage_after(txid, first, events.drop_last()), events.last())
    }
}

/// Whether the event at some place is the introduction of a peer with the relay service.
pub open spec fn met_libre_peer(events: Seq<PeerEventView>) -> bool {
    exists|i: int| 0 <= i < events.len() && session::introduces_libre_peer(#[trigger] events[i])
}

/// Whether the event at some place is a message that confirms the delivery, after the introduction
/// of a peer with the relay service.
pub open spec fn met_receipt(txid: Txid, events: Seq<PeerEventView>) -> bool {
    exists|i: int, j: int|
        0 <= i < j < events.len() && session::introduces_libre_peer(#[trigger] events[i])
            && #[trigger] confirmed_by(events[j], txid)
}

/// Whether an event is a message that confirms the delivery.
pub open spec fn confirmed_by(event: PeerEventView, txid: Txid) -> bool {
    event matches PeerEventView::Received(message) && confirms(message, txid)
}

/// Whether a stage comes after the introduction of a peer with the relay service.
pub open spec fn past_introduction(stage: DeliveryStage) -> bool {
    ||| stage is SendingVerack
    ||| stage is SendingTx
    ||| stage is SendingGetData
    ||| stage is AwaitingReceipt
    ||| stage == DeliveryStage::Done(Ok(true))
}

/// Whatever happens: a peer is answered, and so sent the transaction, only after it has
/// introduced itself as one with the relay service, and a delivery counts only once a message
/// that confirms it has come after that.
pub proof fn law_delivery_is_earned(
    tx: TxView,
    relay: bool,
    address: NetworkAddressView,
    tor_only: bool,
    events: Seq<PeerEventView>,
)
    ensures
        ({
            let stage = stage_after(tx.txid, first_stage(address, tor_only), events);
            &&& past_introduction(stage) ==> met_libre_peer(events)
            &&& stage_action(tx, relay, stage) == ActionView::Send(RequestView::Tx(tx))
                ==> met_libre_peer(events)
            &&& stage == DeliveryStage::Done(Ok(true)) ==> met_receipt(tx.txid, events)
        }),
    decreases events.len(),
{
    let first = first_stage(address, tor_only);
    if events.len() > 0 {
        let less = events.drop_last();
        law_delivery_is_earned(tx, relay, address, tor_only, less);
        let before = stage_after(tx.txid, first, less);
        let last = events.len() - 1;
        assert(forall|i: int| 0 <= i < less.len() ==> less[i] == #[trigger] events[i]);
        if before is AwaitingVersion && past_introduction(next_stage(tx.txid, before, events[last])) {
            assert(session::introduces_libre_peer(events[last]));
        }
        if before is AwaitingReceipt && confirmed_by(events[last], tx.txid) {
            let i = choose|i: int|
                0 <= i < less.len() && session::introduces_libre_peer(#[trigger] less[i]);
            assert(session::introduces_libre_peer(events[i]));
        }
        if met_libre_peer(less) {
            let i = choose|i: int|
                0 <= i < less.len() && session::introduces_libre_peer(#[trigger] less[i]);
            assert(session::introduces_libre_peer(events[i]));
        }
        if met_receipt(tx.txid, less) {
            let (i, j) = choose|i: int, j: int|
                0 <= i < j < less.len() && session::introduces_libre_peer(#[trigger] less[i])
                    && #[trigger] confirmed_by(less[j], tx.txid);
            assert(session::introduces_libre_peer(events[i]));
            assert(confirmed_by(events[j], tx.txid));
        }
    }
}

/// In onion-only mode a peer on the clear net is not even connected to: whatever happens, there is
/// nothing to do, and nothing was delivered.
pub proof fn law_tor_only_delivers_nothing_on_the_clear_net(
    tx: TxView,
    relay: bool,
    address: NetworkAddressView,
    events: Seq<PeerEventView>,
)
    requires
        address is Ip,
    ensures
        stage_after(tx.txid, first_stage(address, true), events) == DeliveryStage::Done(Ok(false)),
        stage_action(tx, relay, stage_after(tx.txid, first_stage(address, true), events))
            is Finish,
    decreases events.len(),
{
    if events.len() > 0 {
        law_tor_only_delivers_nothing_on_the_clear_net(tx, relay, address, events.drop_last());
    }
}

/// A delivery that was planned while the clear net was allowed and starts in onion-only mode is not
/// begun: whatever happens, there is nothing to do, and nothing was delivered. One that starts
/// while its peer is allowed goes on as planned.
pub proof fn law_start_heeds_the_mode(
    tx: TxView,
    relay: bool,
    address: NetworkAddressView,
    planned: bool,
    now: bool,
    events: Seq<PeerEventView>,
)
    ensures
        ({
            let start = started(first_stage(address, planned), address, now);
            let stage = stage_after(tx.txid, start, events);
            &&& !address::allowed(address, now) ==> stage == DeliveryStage::Done(Ok(false))
                && stage_action(tx, relay, stage) is Finish
            &&& address::allowed(address, now) ==> start == first_stage(address, planned)
        }),
    decreases events.len(),
{
    if events.len() > 0 {
        law_start_heeds_the_mode(tx, relay, address, planned, now, events.drop_last());
    }
}

/// The place of a stage in the order in which they come.
pub open spec fn rank(stage: DeliveryStage) -> int {
    match stage {
        DeliveryStage::Connecting => 0,
        DeliveryStage::Introducing => 1,
        DeliveryStage::AwaitingVersion => 2,
        DeliveryStage::SendingVerack => 3,
        DeliveryStage::SendingTx => 4,
        DeliveryStage::SendingGetData => 5,
        DeliveryStage::AwaitingReceipt => 6,
        DeliveryStage::Done(_) => 7,
    }
}

/// A delivery never goes back, so that each message is sent once at most, in the order of the
/// stages, and what came of it does not change any more.
pub proof fn law_delivery_never_goes_back(txid: Txid, stage: DeliveryStage, event: PeerEventView)
    ensures
        next_stage(txid, stage, event) == stage || rank(next_stage(txid, stage, event)) > rank(
            stage,
        ),
        stage is Done ==> next_stage(txid, stage, event) == stage,
{
}

/// While a receipt is awaited one event decides: a message that confirms the delivery makes it
/// count, silence and a broken connection make it not count, and nothing else ends the wait.
pub proof fn law_receipt_is_decided_by_one_event(txid: Txid, event: PeerEventView)
    ensures
        next_stage(txid, DeliveryStage::AwaitingReceipt, event) == DeliveryStage::Done(Ok(true))
            <==> confirmed_by(event, txid),
        next_stage(txid, DeliveryStage::AwaitingReceipt, event) == DeliveryStage::Done(Ok(false))
            <==> event is TimedOut || event is Failed,
{
}

/// A delivery succeeds to every peer that may be spoken to, takes the messages, offers the relay
/// service and then confirms the transaction.
pub proof fn law_delivery_succeeds(
    txid: Txid,
    address: NetworkAddressView,
    tor_only: bool,
    introduction: PeerEventView,
    receipt: PeerEventView,
)
    requires
        address::allowed(address, tor_only),
        session::introduces_libre_peer(introduction),
        confirmed_by(receipt, txid),
    ensures
        stage_after(
            txid,
            first_stage(address, tor_only),
            seq![
                PeerEventView::Connected,
                PeerEventView::Sent,
                introduction,
                PeerEventView::Sent,
                PeerEventView::Sent,
                PeerEventView::Sent,
                receipt,
            ],
        ) == DeliveryStage::Done(Ok(true)),
{
    reveal_with_fuel(stage_after, 8);
}

/// Where a delivery begins and starts: a peer on the clear net is left alone in onion-only mode, and
/// every other peer is connected to.
pub proof fn law_delivery_begins(
    address: NetworkAddressView,
    tor_only: bool,
    stage: DeliveryStage,
)
    ensures
        tor_only && address is Ip ==> first_stage(address, tor_only) == DeliveryStage::Done(
            Ok(false),
        ),
        !tor_only || address is Onion ==> first_stage(address, tor_only)
            == DeliveryStage::Connecting,
        tor_only && address is Ip ==> started(DeliveryStage::Connecting, address, tor_only)
            == DeliveryStage::Done(Ok(false)),
        !tor_only || address is Onion || !(stage is Connecting) ==> started(
            stage,
            address,
            tor_only,
        ) == stage,
{
}

/// What is said and awaited at each stage: 12 seconds for a connection, the introduction with the
/// wish for announcements as asked, 5 seconds in all for the peer's, then the answer, the
/// transaction itself, the request for it, and 12 seconds for each message that may confirm it.
pub proof fn law_delivery_speaks(tx: TxView, relay: bool, result: Result<bool, PeerError>)
    ensures
        stage_action(tx, relay, DeliveryStage::Connecting) == (ActionView::Connect {
            timeout_secs: 12,
        }),
        stage_action(tx, relay, DeliveryStage::Introducing) == ActionView::Send(
            RequestView::Version { relay },
        ),
        stage_action(tx, relay, DeliveryStage::AwaitingVersion) == ActionView::Receive(
            Patience::Total(5),
        ),
        stage_action(tx, relay, DeliveryStage::SendingVerack) == ActionView::Send(
            RequestView::Verack,
        ),
        stage_action(tx, relay, DeliveryStage::SendingTx) == ActionView::Send(RequestView::Tx(tx)),
        ({
            let action = stage_action(tx, relay, DeliveryStage::SendingGetData);
            &&& action matches ActionView::Send(RequestView::GetData(ids))
            &&& ids.len() == 1
            &&& ids[0] == tx.txid
        }),
        stage_action(tx, relay, DeliveryStage::AwaitingReceipt) == ActionView::Receive(
            Patience::Each(12),
        ),
        stage_action(tx, relay, DeliveryStage::Done(result)) is Finish,
{
}

/// How the opening of a delivery answers every event: the peer that was reached is greeted, and goes
/// on to be answered if and only if its introduction has bit 29 among its services; without that bit
/// the peer does not have the transaction; everything that is no answer leaves the delivery where it
/// is.
pub proof fn law_delivery_opens(txid: Txid, event: PeerEventView)
    ensures
        ({
            let n = next_stage(txid, DeliveryStage::Connecting, event);
            &&& n == DeliveryStage::Introducing <==> event is Connected
            &&& n == DeliveryStage::Done(Err(PeerError::ConnectTimeout)) <==> event is TimedOut
            &&& n == DeliveryStage::Done(Err(PeerError::Connect)) <==> event is Failed
            &&& n == DeliveryStage::Connecting <==> event is Sent || event is Received
        }),
        ({
            let n = next_stage(txid, DeliveryStage::Introducing, event);
            &&& n == DeliveryStage::AwaitingVersion <==> event is Sent
            &&& n == DeliveryStage::Done(Err(PeerError::Send)) <==> event is Failed
            &&& n == DeliveryStage::Introducing <==> !(event is Sent || event is Failed)
        }),
        ({
            let n = next_stage(txid, DeliveryStage::AwaitingVersion, event);
            &&& n == DeliveryStage::SendingVerack <==> (event matches PeerEventView::Received(
                MessageView::Version { services, .. },
            ) && (services / 536_870_912) % 2 == 1)
            &&& n == DeliveryStage::Done(Ok(false)) <==> (event matches PeerEventView::Received(
                MessageView::Version { services, .. },
            ) && (services / 536_870_912) % 2 == 0)
            &&& n == DeliveryStage::Done(Err(PeerError::VersionTimeout)) <==> event is TimedOut
            &&& n == DeliveryStage::Done(Err(PeerError::Read)) <==> event is Failed
            &&& n == DeliveryStage::AwaitingVersion <==> {
                ||| event is Connected
                ||| event is Sent
                ||| (event matches PeerEventView::Received(message) && !(message is Version))
            }
        }),
{
    if let PeerEventView::Received(MessageView::Version { services, .. }) = event {
        address::law_libre_relay_is_one_bit(services);
    }
}

/// How the rest of a delivery answers every event. The answer, the transaction and the request for
/// it go out one after another. Then a message confirms the delivery if and only if it is the
/// transaction itself or a list, of what the peer has or of what it lacks, with the transaction at
/// some place; silence and a broken connection deny it; anything else is passed over.
pub proof fn law_delivery_closes(txid: Txid, event: PeerEventView, result: Result<bool, PeerError>)
    ensures
        ({
            let n = next_stage(txid, DeliveryStage::SendingVerack, event);
            &&& n == DeliveryStage::SendingTx <==> event is Sent
            &&& n == DeliveryStage::Done(Err(PeerError::Send)) <==> event is Failed
            &&& n == DeliveryStage::SendingVerack <==> !(event is Sent || event is Failed)
        }),
        ({
            let n = next_stage(txid, DeliveryStage::SendingTx, event);
            &&& n == DeliveryStage::SendingGetData <==> event is Sent
            &&& n == DeliveryStage::Done(Err(PeerError::Send)) <==> event is Failed
            &&& n == DeliveryStage::SendingTx <==> !(event is Sent || event is Failed)
        }),
        ({
            let n = next_stage(txid, DeliveryStage::SendingGetData, event);
            &&& n == DeliveryStage::AwaitingReceipt <==> event is Sent
            &&& n == DeliveryStage::Done(Err(PeerError::Send)) <==> event is Failed
            &&& n == DeliveryStage::SendingGetData <==> !(event is Sent || event is Failed)
        }),
        ({
            let n = next_stage(txid, DeliveryStage::AwaitingReceipt, event);
            let confirmed = match event {
                PeerEventView::Received(MessageView::Tx(tx)) => tx.txid == txid,
                PeerEventView::Received(MessageView::Inv(items)) => exists|i: int|
                    0 <= i < items.len() && #[trigger] items[i] == InvItem::Transaction(txid),
                PeerEventView::Received(MessageView::NotFound(items)) => exists|i: int|
                    0 <= i < items.len() && #[trigger] items[i] == InvItem::Transaction(txid),
                _ => false,
            };
            &&& n == DeliveryStage::Done(Ok(true)) <==> confirmed
            &&& n == DeliveryStage::Done(Ok(false)) <==> event is TimedOut || event is Failed
            &&& n == DeliveryStage::AwaitingReceipt <==> !confirmed && !(event is TimedOut
                || event is Failed)
        }),
        next_stage(txid, DeliveryStage::Done(result), event) == DeliveryStage::Done(result),
{
}

/// A peer that keeps to the protocol gets the transaction, however much else it says: one that may
/// be spoken to, takes every message, introduces itself with bit 29 after any other messages, and at
/// some time later lists or sends the transaction, is counted; and the messages that go to it are the
/// introduction, the answer, the transaction and the request for it, in this order.
pub proof fn law_delivery_reaches_its_peer(
    tx: TxView,
    relay: bool,
    address: NetworkAddressView,
    tor_only: bool,
    chatter: Seq<PeerEventView>,
    services: u64,
    user_agent: Seq<char>,
    noise: Seq<PeerEventView>,
    items: Seq<InvItem>,
    place: int,
)
    requires
        !tor_only || address is Onion,
        (services / 536_870_912) % 2 == 1,
        forall|i: int|
            0 <= i < chatter.len() ==> (#[trigger] chatter[i] matches PeerEventView::Received(m)
                && !(m is Version)),
        forall|i: int|
            0 <= i < noise.len() ==> (#[trigger] noise[i] matches PeerEventView::Received(m)
                && !(m is Tx || m is Inv || m is NotFound)),
        0 <= place < items.len(),
        items[place] == InvItem::Transaction(tx.txid),
    ensures
        ({
            let first = first_stage(address, tor_only);
            let hello = seq![PeerEventView::Connected, PeerEventView::Sent] + chatter + seq![
                PeerEventView::Received(MessageView::Version { services, user_agent }),
            ];
            let one = seq![PeerEventView::Sent];
            let asked = hello + one + one + one;
            let inv = seq![PeerEventView::Received(MessageView::Inv(items))];
            let lacks = seq![PeerEventView::Received(MessageView::NotFound(items))];
            let sent = seq![PeerEventView::Received(MessageView::Tx(tx))];
            let lost = seq![PeerEventView::TimedOut];
            &&& stage_action(tx, relay, stage_after(tx.txid, first, hello)) == ActionView::Send(
                RequestView::Verack,
            )
            &&& stage_action(tx, relay, stage_after(tx.txid, first, hello + one))
                == ActionView::Send(RequestView::Tx(tx))
            &&& stage_action(tx, relay, stage_after(tx.txid, first, hello + one + one))
                == ActionView::Send(RequestView::GetData(seq![tx.txid]))
            &&& stage_after(tx.txid, first, asked + noise + inv) == DeliveryStage::Done(Ok(true))
            &&& stage_after(tx.txid, first, asked + noise + lacks) == DeliveryStage::Done(Ok(true))
            &&& stage_after(tx.txid, first, asked + noise + sent) == DeliveryStage::Done(Ok(true))
            &&& stage_after(tx.txid, first, asked + noise + lost) == DeliveryStage::Done(Ok(false))
        }),
{
    let first = first_stage(address, tor_only);
    let opening = seq![PeerEventView::Connected, PeerEventView::Sent];
    let intro = seq![PeerEventView::Received(MessageView::Version { services, user_agent })];
    let hello = opening + chatter + intro;
    let one = seq![PeerEventView::Sent];
    let asked = hello + one + one + one;
    assert(stage_after(tx.txid, first, opening) == DeliveryStage::AwaitingVersion) by {
        reveal_with_fuel(stage_after, 3);
    }
    lemma_stays(tx.txid, DeliveryStage::AwaitingVersion, chatter);
    lemma_stage_after_concat(tx.txid, first, opening, chatter);
    lemma_stage_after_concat(tx.txid, first, opening + chatter, intro);
    law_delivery_opens(tx.txid, intro[0]);
    lemma_one_event(tx.txid, DeliveryStage::AwaitingVersion, intro[0]);
    assert(intro =~= seq![intro[0]]);
    lemma_stage_after_concat(tx.txid, first, hello, one);
    lemma_stage_after_concat(tx.txid, first, hello + one, one);
    lemma_stage_after_concat(tx.txid, first, hello + one + one, one);
    lemma_one_event(tx.txid, DeliveryStage::SendingVerack, PeerEventView::Sent);
    lemma_one_event(tx.txid, DeliveryStage::SendingTx, PeerEventView::Sent);
    lemma_one_event(tx.txid, DeliveryStage::SendingGetData, PeerEventView::Sent);
    lemma_stays(tx.txid, DeliveryStage::AwaitingReceipt, noise);
    lemma_stage_after_concat(tx.txid, first, asked, noise);
    let inv = PeerEventView::Received(MessageView::Inv(items));
    let lacks = PeerEventView::Received(MessageView::NotFound(items));
    let sent = PeerEventView::Received(MessageView::Tx(tx));
    lemma_stage_after_concat(tx.txid, first, asked + noise, seq![inv]);
    lemma_stage_after_concat(tx.txid, first, asked + noise, seq![lacks]);
    lemma_stage_after_concat(tx.txid, first, asked + noise, seq![sent]);
    lemma_stage_after_concat(tx.txid, first, asked + noise, seq![PeerEventView::TimedOut]);
    lemma_one_event(tx.txid, DeliveryStage::AwaitingReceipt, inv);
    lemma_one_event(tx.txid, DeliveryStage::AwaitingReceipt, lacks);
    lemma_one_event(tx.txid, DeliveryStage::AwaitingReceipt, sent);
    lemma_one_event(tx.txid, DeliveryStage::AwaitingReceipt, PeerEventView::TimedOut);
}

/// A row of events after another.
proof fn lemma_stage_after_concat(
    txid: Txid,
    first: DeliveryStage,
    a: Seq<PeerEventView>,
    b: Seq<PeerEventView>,
)
    ensures
        stage_after(txid, first, a + b) == stage_after(txid, stage_after(txid, first, a), b),
    decreases b.len(),
{
    if b.len() == 0 {
        assert(a + b =~= a);
    } else {
        assert((a + b).drop_last() =~= a + b.drop_last());
        lemma_stage_after_concat(txid, first, a, b.drop_last());
    }
}

/// A row of one event.
proof fn lemma_one_event(txid: Txid, stage: DeliveryStage, event: PeerEventView)
    ensures
        stage_after(txid, stage, seq![event]) == next_stage(txid, stage, event),
{
    reveal_with_fuel(stage_after, 2);
    assert(seq![event].drop_last() =~= Seq::<PeerEventView>::empty());
}

/// A row of events that all leave a stage as it is.
proof fn lemma_stays(txid: Txid, stage: DeliveryStage, events: Seq<PeerEventView>)
    requires
        forall|i: int|
            0 <= i < events.len() ==> next_stage(txid, stage, #[trigger] events[i]) == stage,
    ensures
        stage_after(txid, stage, events) == stage,
    decreases events.len(),
{
    if events.len() > 0 {
        lemma_stays(txid, stage, events.drop_last());
        assert(events.last() == events[events.len() - 1]);
    }
}

} // verus!
