//! Fetching the transactions in one peer's memory pool.
use crate::address;
use crate::address::{NetworkAddress, NetworkAddressView};
use crate::seqs;
use crate::session;
use crate::session::{
    connect_result, send_result, wait_for_version, Action, ActionView, Patience, PeerError,
    PeerEvent, PeerEventView, CONNECTION_TIMEOUT_SECS, VERSION_TIMEOUT_SECS,
};
use crate::tor::{tor_only_enabled, TorMode};
use crate::tx::{Tx, TxView, Txid};
use crate::txid_set::TxidSet;
use crate::wire::{InvItem, Message, MessageView, Request, RequestView};
use vstd::prelude::*;

verus! {

/// How far a fetch has come.
#[derive(Clone, Copy, Debug, PartialEq, Eq)]
pub enum FetchStage {
    Connecting,
    Introducing,
    AwaitingVersion,
    SendingVerack,
    SendingMemPool,
    /// Collecting the ids that the peer announces.
    CollectingIds,
    /// Asking for the transactions.
    SendingGetData,
    /// Collecting the transactions.
    CollectingTxs,
    /// Over, or failed.
    Done(Result<(), PeerError>),
}

/// What a [`PeerFetch`] says.
#[verifier::ext_equal]
pub struct FetchView {
    pub relay: bool,
    /// How many transactions are wanted at most.
    pub limit: nat,
    /// The ids to ask for, in the order in which they were announced.
    pub requested: Seq<Txid>,
    /// Those of them that have not been answered.
    pub pending: Set<Txid>,
    /// The transactions that came.
    pub fetched: Seq<TxView>,
    pub stage: FetchStage,
}

/// A fetch of the transactions in one peer's memory pool.
#[derive(Debug)]
pub struct PeerFetch {
    relay: bool,
    limit: usize,
    announced: TxidSet,
    requested: Vec<Txid>,
    pending: TxidSet,
    fetched: Vec<Tx>,
    stage: FetchStage,
}

/// What each of a list of transactions says.
pub open spec fn tx_views(list: Seq<Tx>) -> Seq<TxView> {
    list.map_values(|tx: Tx| tx@)
}

impl View for PeerFetch {
    type V = FetchView;

    closed spec fn view(&self) -> FetchView {
        FetchView {
            relay: self.relay,
            limit: self.limit as nat,
            requested: self.requested@,
            pending: self.pending@,
            fetched: tx_views(self.fetched@),
            stage: self.stage,
        }
    }
}

/// `known`, followed by the ids of transactions in `items` that are not in it, each once and in
/// order.
pub open spec fn announced(known: Seq<Txid>, items: Seq<InvItem>) -> Seq<Txid>
    decreases items.len(),
{
    if items.len() == 0 {
        known
    } else {
        let before = announced(known, items.drop_last());
        match items.last() {
            InvItem::Transaction(id) => if before.contains(id) {
                before
            } else {
                before.push(id)
            },
            InvItem::Other => before,
        }
    }
}

/// How many ids are asked for at most: one, even where no transaction is wanted.
pub open spec fn request_cap(limit: nat) -> nat {
    if limit == 0 {
        1
    } else {
        limit
    }
}

/// The ids to ask for after one more announcement: those known and those new, up to the cap.
pub open spec fn queued(requested: Seq<Txid>, items: Seq<InvItem>, limit: nat) -> Seq<Txid> {
    let all = announced(requested, items);
    if all.len() <= request_cap(limit) {
        all
    } else {
        all.take(request_cap(limit) as int)
    }
}

/// The transactions that a list of items names.
pub open spec fn named(items: Seq<InvItem>) -> Set<Txid> {
    Set::new(|id: Txid| session::lists(items, id))
}

/// Whether nothing is left to wait for.
pub open spec fn complete(f: FetchView) -> bool {
    f.pending == Set::<Txid>::empty() || f.fetched.len() >= f.limit
}

/// A fetch that ends once nothing is left to wait for.
pub open spec fn settled(f: FetchView) -> FetchView {
    if complete(f) {
        FetchView { stage: FetchStage::Done(Ok(())), ..f }
    } else {
        f
    }
}

/// A fetch once no more announcements are waited for: what was announced is asked for, if there is
/// anything.
pub open spec fn ids_collected(f: FetchView) -> FetchView {
    FetchView {
        stage: if f.requested.len() == 0 {
            FetchStage::Done(Ok(()))
        } else {
            FetchStage::SendingGetData
        },
        ..f
    }
}

/// A fetch after sending, with `next` in its place if it went well.
pub open spec fn after_send(f: FetchView, event: PeerEventView, next: FetchView) -> FetchView {
    match session::send_outcome(event) {
        Some(Ok(_)) => next,
        Some(Err(error)) => FetchView { stage: FetchStage::Done(Err(error)), ..f },
        None => f,
    }
}

/// Where a fetch from the peer at `address` begins: it is over at once, with nothing, where the
/// address must not be spoken to.
pub open spec fn first_fetch(
    address: NetworkAddressView,
    tor_only: bool,
    relay: bool,
    limit: nat,
) -> FetchView {
    FetchView {
        relay,
        limit,
        requested: Seq::empty(),
        pending: Set::empty(),
        fetched: Seq::empty(),
        stage: if address::allowed(address, tor_only) {
            FetchStage::Connecting
        } else {
            FetchStage::Done(Ok(()))
        },
    }
}

/// A fetch from the peer at `address` that starts: it is over at once, with nothing, where the
/// address must no longer be spoken to.
pub open spec fn started(f: FetchView, address: NetworkAddressView, tor_only: bool) -> FetchView {
    if f.stage is Connecting && !address::allowed(address, tor_only) {
        FetchView { stage: FetchStage::Done(Ok(())), ..f }
    } else {
        f
    }
}

/// The action that is next.
pub open spec fn fetch_action(f: FetchView) -> ActionView {
    match f.stage {
        FetchStage::Connecting => ActionView::Connect { timeout_secs: CONNECTION_TIMEOUT_SECS },
        FetchStage::Introducing => ActionView::Send(RequestView::Version { relay: f.relay }),
        FetchStage::AwaitingVersion => ActionView::Receive(Patience::Total(VERSION_TIMEOUT_SECS)),
        FetchStage::SendingVerack => ActionView::Send(RequestView::Verack),
        FetchStage::SendingMemPool => ActionView::Send(RequestView::MemPool),
        FetchStage::CollectingIds => ActionView::Receive(Patience::Each(CONNECTION_TIMEOUT_SECS)),
        FetchStage::SendingGetData => ActionView::Send(RequestView::GetData(f.requested)),
        FetchStage::CollectingTxs => ActionView::Receive(Patience::Each(CONNECTION_TIMEOUT_SECS)),
        FetchStage::Done(_) => ActionView::Finish,
    }
}

/// A fetch that collects ids, after an event.
pub open spec fn ids_step(f: FetchView, event: PeerEventView) -> FetchView {
    match event {
        PeerEventView::Received(MessageView::Inv(items)) => {
            let more = FetchView { requested: queued(f.requested, items, f.limit), ..f };
            if more.requested.len() >= f.limit {
                ids_collected(more)
            } else {
                more
            }
        },
        PeerEventView::TimedOut => ids_collected(f),
        PeerEventView::Failed => ids_collected(f),
        _ => f,
    }
}

/// A fetch that collects transactions, after an event: a transaction counts if it was asked for
/// and has not come yet; what the peer does not have is not waited for.
pub open spec fn txs_step(f: FetchView, event: PeerEventView) -> FetchView {
    match event {
        PeerEventView::Received(MessageView::Tx(tx)) => if f.pending.contains(tx.txid) {
            settled(
                FetchView { pending: f.pending.remove(tx.txid), fetched: f.fetched.push(tx), ..f },
            )
        } else {
            f
        },
        PeerEventView::Received(MessageView::NotFound(items)) => settled(
            FetchView { pending: f.pending.difference(named(items)), ..f },
        ),
        PeerEventView::TimedOut => FetchView { stage: FetchStage::Done(Ok(())), ..f },
        PeerEventView::Failed => FetchView { stage: FetchStage::Done(Ok(())), ..f },
        _ => f,
    }
}

/// A fetch after an event.
pub open spec fn next_fetch(f: FetchView, event: PeerEventView) -> FetchView {
    match f.stage {
        FetchStage::Connecting => match session::connect_outcome(event) {
            Some(Ok(_)) => FetchView { stage: FetchStage::Introducing, ..f },
            Some(Err(error)) => FetchView { stage: FetchStage::Done(Err(error)), ..f },
            None => f,
        },
        FetchStage::Introducing => after_send(
            f,
            event,
            FetchView { stage: FetchStage::AwaitingVersion, ..f },
        ),
        FetchStage::AwaitingVersion => match session::version_outcome(event) {
            Some(Ok(_)) => FetchView { stage: FetchStage::SendingVerack, ..f },
            Some(Err(error)) => FetchView { stage: FetchStage::Done(Err(error)), ..f },
            None => f,
        },
        FetchStage::SendingVerack => after_send(
            f,
            event,
            FetchView { stage: FetchStage::SendingMemPool, ..f },
        ),
        FetchStage::SendingMemPool => after_send(
            f,
            event,
            FetchView { stage: FetchStage::CollectingIds, ..f },
        ),
        FetchStage::CollectingIds => ids_step(f, event),
        FetchStage::SendingGetData => after_send(
            f,
            event,
            settled(
                FetchView {
                    stage: FetchStage::CollectingTxs,
                    pending: f.requested.to_set(),
                    ..f
                },
            ),
        ),
        FetchStage::CollectingTxs => txs_step(f, event),
        FetchStage::Done(_) => f,
    }
}

/// What holds of a fetch at any time.
pub open spec fn sound(f: FetchView) -> bool {
    &&& f.requested.no_duplicates()
    &&& f.requested.len() <= request_cap(f.limit)
    &&& f.fetched.len() <= f.limit
    &&& forall|id: Txid| f.pending.contains(id) ==> f.requested.contains(id)
    &&& forall|i: int|
        0 <= i < f.fetched.len() ==> {
            &&& (#[trigger] f.fetched[i]).valid()
            &&& f.requested.contains(f.fetched[i].txid)
            &&& !f.pending.contains(f.fetched[i].txid)
        }
    &&& forall|i: int, j: int|
        0 <= i < j < f.fetched.len() ==> (#[trigger] f.fetched[i]).txid != (
        #[trigger] f.fetched[j]).txid
    &&& !(f.stage is CollectingTxs || f.stage is Done) ==> f.fetched.len() == 0
    &&& f.stage is CollectingIds ==> f.requested.len() == 0 || f.requested.len() < f.limit
    &&& f.stage is CollectingTxs ==> !complete(f)
    &&& f.stage matches FetchStage::Done(Err(_)) ==> f.fetched.len() == 0
    &&& (f.stage is Connecting || f.stage is Introducing || f.stage is AwaitingVersion || f.stage
        is SendingVerack || f.stage is SendingMemPool) ==> f.requested.len() == 0
}

impl PeerFetch {
    /// The state is sound, and the ids that were announced are those to ask for.
    pub closed spec fn wf(&self) -> bool {
        sound(self@) && self.announced@ == self.requested@.to_set()
    }

    /// Starts the fetch from the peer at `addr`, who may have become one not to be spoken to since
    /// it was planned.
    pub fn start(&mut self, addr: &NetworkAddress, mode: &TorMode)
        requires
            old(self).wf(),
        ensures
            final(self).wf(),
            final(self)@ == started(old(self)@, addr@, mode.only),
    {
        if let FetchStage::Connecting = self.stage {
            if tor_only_enabled(mode) && addr.is_clearnet() {
                self.stage = FetchStage::Done(Ok(()));
            }
        }
        assert(self@ =~= started(old(self)@, addr@, mode.only));
    }

    /// What to do next.
    pub fn action(&self) -> (action: Action)
        ensures
            action@ == fetch_action(self@),
    {
        match self.stage {
            FetchStage::Connecting => Action::Connect { timeout_secs: CONNECTION_TIMEOUT_SECS },
            FetchStage::Introducing => Action::Send(Request::Version { relay: self.relay }),
            FetchStage::AwaitingVersion => Action::Receive(Patience::Total(VERSION_TIMEOUT_SECS)),
            FetchStage::SendingVerack => Action::Send(Request::Verack),
            FetchStage::SendingMemPool => Action::Send(Request::MemPool),
            FetchStage::CollectingIds => Action::Receive(Patience::Each(CONNECTION_TIMEOUT_SECS)),
            FetchStage::SendingGetData => {
                let mut ids: Vec<Txid> = Vec::new();
                ids.extend_from_slice(self.requested.as_slice());
                assert(ids@ =~= self.requested@);
                Action::Send(Request::GetData(ids))
            },
            FetchStage::CollectingTxs => Action::Receive(Patience::Each(CONNECTION_TIMEOUT_SECS)),
            FetchStage::Done(_) => Action::Finish,
        }
    }

    /// Moves on with what came of the action.
    pub fn on_event(&mut self, event: &PeerEvent)
        requires
            old(self).wf(),
        ensures
            final(self).wf(),
            sound(final(self)@),
            final(self)@ == next_fetch(old(self)@, event@),
    {
        // A transaction that came is one: its id tells.
        if let PeerEvent::Received(Message::Tx(tx)) = event {
            let _ = tx.txid();
        }
        let ghost next = next_fetch(self@, event@);
        proof {
            law_fetch_stays_sound(self@, event@);
        }
        let stage = self.stage;
        match stage {
            FetchStage::Connecting => match connect_result(event) {
                Some(Ok(_)) => {
                    self.stage = FetchStage::Introducing;
                },
                Some(Err(error)) => {
                    self.stage = FetchStage::Done(Err(error));
                },
                None => {},
            },
            FetchStage::Introducing => {
                self.stage = sent(event, stage, FetchStage::AwaitingVersion);
            },
            FetchStage::AwaitingVersion => match wait_for_version(event) {
                Some(Ok(_)) => {
                    self.stage = FetchStage::SendingVerack;
                },
                Some(Err(error)) => {
                    self.stage = FetchStage::Done(Err(error));
                },
                None => {},
            },
            FetchStage::SendingVerack => {
                self.stage = sent(event, stage, FetchStage::SendingMemPool);
            },
            FetchStage::SendingMemPool => {
                self.stage = sent(event, stage, FetchStage::CollectingIds);
            },
            FetchStage::CollectingIds => match event {
                PeerEvent::Received(Message::Inv(items)) => {
                    self.queue(items);
                    if self.requested.len() >= self.limit {
                        self.end_of_ids();
                    }
                },
                PeerEvent::TimedOut => self.end_of_ids(),
                PeerEvent::Failed => self.end_of_ids(),
                _ => {},
            },
            FetchStage::SendingGetData => match send_result(event) {
                Some(Ok(_)) => {
                    self.pending = TxidSet::from_ids(&self.requested);
                    self.stage = FetchStage::CollectingTxs;
                    self.settle();
                },
                Some(Err(error)) => {
                    self.stage = FetchStage::Done(Err(error));
                },
                None => {},
            },
            FetchStage::CollectingTxs => match event {
                PeerEvent::Received(Message::Tx(tx)) => {
                    let txid = tx.txid();
                    if self.pending.remove(&txid) {
                        let ghost before = self.fetched@;
                        self.fetched.push(tx.duplicate());
                        assert(tx_views(self.fetched@) =~= tx_views(before).push(tx@));
                        self.settle();
                    }
                },
                PeerEvent::Received(Message::NotFound(items)) => {
                    self.give_up(items);
                    self.settle();
                },
                PeerEvent::TimedOut => {
                    self.stage = FetchStage::Done(Ok(()));
                },
                PeerEvent::Failed => {
                    self.stage = FetchStage::Done(Ok(()));
                },
                _ => {},
            },
            FetchStage::Done(_) => {},
        }
        assert(self@ =~= next);
    }

    /// What came of the fetch; `None` while it is not over.
    pub fn into_outcome(self) -> (r: Option<Result<Vec<Tx>, PeerError>>)
        ensures
            match self@.stage {
                FetchStage::Done(Ok(_)) => r matches Some(Ok(txs)) && tx_views(txs@)
                    == self@.fetched,
                FetchStage::Done(Err(error)) => r == Some(Err::<Vec<Tx>, PeerError>(error)),
                _ => r is None,
            },
    {
        match self.stage {
            FetchStage::Done(Ok(_)) => Some(Ok(self.fetched)),
            FetchStage::Done(Err(error)) => Some(Err(error)),
            _ => None,
        }
    }

    /// Adds the ids that an inventory announces.
    fn queue(&mut self, items: &Vec<InvItem>)
        requires
            old(self).wf(),
            old(self)@.stage is CollectingIds,
        ensures
            final(self)@ == (FetchView {
                requested: queued(old(self)@.requested, items@, old(self)@.limit),
                ..old(self)@
            }),
            final(self).announced@ == final(self).requested@.to_set(),
            final(self).requested@.no_duplicates(),
    {
        let ghost known = self.requested@;
        let ghost cap = request_cap(self@.limit);
        proof {
            lemma_announced(known, items@);
            assert(items@.take(0) =~= Seq::<InvItem>::empty());
        }
        for i in 0..items.len()
            invariant
                known == old(self).requested@,
                known.no_duplicates(),
                cap == request_cap(old(self)@.limit),
                self@ == (FetchView { requested: self.requested@, ..old(self)@ }),
                self.requested@ == announced(known, items@.take(i as int)),
                self.requested@.len() < cap,
                self.announced@ == self.requested@.to_set(),
        {
            let ghost before = self.requested@;
            let ghost whole = announced(known, items@);
            proof {
                assert(items@.take(i + 1).drop_last() =~= items@.take(i as int));
                assert(items@.take(i + 1).last() == items@[i as int]);
                lemma_announced(known, items@.take(i + 1));
                lemma_announced_grows(known, items@, i + 1);
            }
            if let InvItem::Transaction(id) = &items[i] {
                if self.announced.insert(*id) {
                    self.requested.push(*id);
                    assert(self.requested@ == announced(known, items@.take(i + 1)));
                    assert(self.announced@ =~= self.requested@.to_set()) by {
                        seqs::lemma_push_to_set(before, *id);
                    }
                    if self.requested.len() >= self.limit {
                        assert(self.requested@ =~= whole.take(cap as int));
                        assert(whole.len() <= cap ==> whole =~= whole.take(cap as int));
                        return ;
                    }
                } else {
                    assert(self.announced@ =~= before.to_set());
                }
            }
        }
        assert(items@.take(items@.len() as int) =~= items@);
    }

    /// Goes on after the last announcement.
    fn end_of_ids(&mut self)
        ensures
            final(self)@ == ids_collected(old(self)@),
            final(self).announced@ == old(self).announced@,
    {
        if self.requested.len() == 0 {
            self.stage = FetchStage::Done(Ok(()));
        } else {
            self.stage = FetchStage::SendingGetData;
        }
    }

    /// Ends the fetch if nothing is left to wait for.
    fn settle(&mut self)
        ensures
            final(self)@ == settled(old(self)@),
            final(self).announced@ == old(self).announced@,
    {
        if self.pending.is_empty() || self.fetched.len() >= self.limit {
            self.stage = FetchStage::Done(Ok(()));
        }
    }

    /// Waits no longer for what an inventory lists.
    fn give_up(&mut self, items: &Vec<InvItem>)
        ensures
            final(self)@ == (FetchView {
                pending: old(self)@.pending.difference(named(items@)),
                ..old(self)@
            }),
            final(self).announced@ == old(self).announced@,
    {
        assert(self.pending@ =~= old(self).pending@.difference(named(items@.take(0))));
        for i in 0..items.len()
            invariant
                self@ == (FetchView { pending: self.pending@, ..old(self)@ }),
                self.announced@ == old(self).announced@,
                self.pending@ == old(self).pending@.difference(named(items@.take(i as int))),
        {
            if let InvItem::Transaction(id) = &items[i] {
                self.pending.remove(id);
            }
            proof {
                let shorter = items@.take(i as int);
                let longer = items@.take(i + 1);
                assert(longer =~= shorter.push(items@[i as int]));
                assert forall|id: Txid| named(longer).contains(id) <==> named(shorter).contains(id)
                    || items@[i as int] == InvItem::Transaction(id) by {
                    seqs::lemma_push_contains(shorter, items@[i as int], InvItem::Transaction(id));
                }
                assert(self.pending@ =~= old(self).pending@.difference(named(longer)));
            }
        }
        assert(items@.take(items@.len() as int) =~= items@);
    }
}

/// The stage after sending, `next` if it went well.
fn sent(event: &PeerEvent, stage: FetchStage, next: FetchStage) -> (r: FetchStage)
    ensures
        r == match session::send_outcome(event@) {
            Some(Ok(_)) => next,
            Some(Err(error)) => FetchStage::Done(Err(error)),
            None => stage,
        },
{
    match send_result(event) {
        Some(Ok(_)) => next,
        Some(Err(error)) => FetchStage::Done(Err(error)),
        None => stage,
    }
}

/// Announcements only add ids at the end, and none twice.
proof fn lemma_announced(known: Seq<Txid>, items: Seq<InvItem>)
    requires
        known.no_duplicates(),
    ensures
        announced(known, items).no_duplicates(),
        known.is_prefix_of(announced(known, items)),
        forall|id: Txid|
            announced(known, items).contains(id) <==> known.contains(id) || session::lists(
                items,
                id,
            ),
    decreases items.len(),
{
    if items.len() == 0 {
        assert(known.is_prefix_of(known));
    } else {
        let less = items.drop_last();
        lemma_announced(known, less);
        let before = announced(known, less);
        let after = announced(known, items);
        assert(items =~= less.push(items.last()));
        assert forall|id: Txid| after.contains(id) <==> known.contains(id) || session::lists(
            items,
            id,
        ) by {
            seqs::lemma_push_contains(less, items.last(), InvItem::Transaction(id));
            if before.contains(id) {
                let k = choose|k: int| 0 <= k < before.len() && before[k] == id;
                assert(after[k] == id);
            }
            if let InvItem::Transaction(new) = items.last() {
                if !before.contains(new) {
                    assert(after[before.len() as int] == new);
                    if after.contains(id) && id != new {
                        let k = choose|k: int| 0 <= k < after.len() && after[k] == id;
                        assert(before[k] == id);
                    }
                }
            }
        }
        assert(known =~= after.subrange(0, known.len() as int)) by {
            assert(known =~= before.subrange(0, known.len() as int));
        }
    }
}

/// What the first items announce is a part of what all of them announce.
proof fn lemma_announced_grows(known: Seq<Txid>, items: Seq<InvItem>, i: int)
    requires
        0 <= i <= items.len(),
    ensures
        announced(known, items.take(i)).is_prefix_of(announced(known, items)),
    decreases items.len() - i,
{
    if i == items.len() {
        assert(items.take(i) =~= items);
        assert(announced(known, items).is_prefix_of(announced(known, items)));
    } else {
        lemma_announced_grows(known, items, i + 1);
        let small = announced(known, items.take(i));
        let middle = announced(known, items.take(i + 1));
        let large = announced(known, items);
        assert(items.take(i + 1).drop_last() =~= items.take(i));
        assert(small.is_prefix_of(middle));
        assert(small =~= large.subrange(0, small.len() as int)) by {
            assert(middle =~= large.subrange(0, middle.len() as int));
        }
    }
}

/// Whether an event can come: a transaction that was received is one.
pub open spec fn possible(event: PeerEventView) -> bool {
    event matches PeerEventView::Received(MessageView::Tx(tx)) ==> tx.valid()
}

/// Whatever happens, a fetch stays sound: no id is asked for twice, no more is asked for or kept
/// than is wanted, and what is kept was asked for and is not kept twice.
pub proof fn law_fetch_stays_sound(f: FetchView, event: PeerEventView)
    requires
        sound(f),
        possible(event),
    ensures
        sound(next_fetch(f, event)),
{
    let after = next_fetch(f, event);
    if f.stage is CollectingIds {
        if let PeerEventView::Received(MessageView::Inv(items)) = event {
            lemma_announced(f.requested, items);
        }
    }
}

/// A fetch after a row of events.
pub open spec fn fetch_after(first: FetchView, events: Seq<PeerEventView>) -> FetchView
    decreases events.len(),
{
    if events.len() == 0 {
        first
    } else {
        next_fetch(fetch_after(first, events.drop_last()), events.last())
    }
}

/// Whether an event is a message that announces a transaction.
pub open spec fn announces(event: PeerEventView, id: Txid) -> bool {
    event matches PeerEventView::Received(MessageView::Inv(items)) && session::lists(items, id)
}

/// Whether one of the events announces a transaction.
pub open spec fn was_announced(events: Seq<PeerEventView>, id: Txid) -> bool {
    exists|i: int| 0 <= i < events.len() && announces(#[trigger] events[i], id)
}

/// Whether a transaction came with one of the events.
pub open spec fn was_received(events: Seq<PeerEventView>, tx: TxView) -> bool {
    exists|i: int|
        0 <= i < events.len() && #[trigger] events[i] == PeerEventView::Received(
            MessageView::Tx(tx),
        )
}

/// Whatever a peer sends, in whatever order: what is fetched is at most as much as is wanted, holds
/// no transaction twice, and holds only transactions that the peer announced, that were asked for
/// and that the peer sent.
pub proof fn law_fetch_takes_what_was_asked_for(
    address: NetworkAddressView,
    tor_only: bool,
    relay: bool,
    limit: nat,
    events: Seq<PeerEventView>,
)
    requires
        forall|i: int| 0 <= i < events.len() ==> possible(#[trigger] events[i]),
    ensures
        ({
            let f = fetch_after(first_fetch(address, tor_only, relay, limit), events);
            &&& sound(f)
            &&& f.limit == limit
            &&& f.relay == relay
            &&& f.fetched.len() <= limit
            &&& forall|i: int, j: int|
                0 <= i < j < f.fetched.len() ==> (#[trigger] f.fetched[i]).txid != (
                #[trigger] f.fetched[j]).txid
            &&& forall|i: int|
                0 <= i < f.fetched.len() ==> {
                    &&& was_received(events, #[trigger] f.fetched[i])
                    &&& f.requested.contains(f.fetched[i].txid)
                    &&& was_announced(events, f.fetched[i].txid)
                }
            &&& forall|id: Txid| f.requested.contains(id) ==> was_announced(events, id)
        }),
    decreases events.len(),
{
    let first = first_fetch(address, tor_only, relay, limit);
    if events.len() > 0 {
        let less = events.drop_last();
        let last = events.len() - 1;
        assert(forall|i: int| 0 <= i < less.len() ==> less[i] == #[trigger] events[i]);
        law_fetch_takes_what_was_asked_for(address, tor_only, relay, limit, less);
        let before = fetch_after(first, less);
        let after = fetch_after(first, events);
        law_fetch_stays_sound(before, events[last]);
        assert forall|id: Txid| was_announced(less, id) implies was_announced(events, id) by {
            let i = choose|i: int| 0 <= i < less.len() && announces(#[trigger] less[i], id);
            assert(announces(events[i], id));
        }
        assert forall|tx: TxView| was_received(less, tx) implies was_received(events, tx) by {
            let i = choose|i: int|
                0 <= i < less.len() && #[trigger] less[i] == PeerEventView::Received(
                    MessageView::Tx(tx),
                );
            assert(events[i] == PeerEventView::Received(MessageView::Tx(tx)));
        }
        assert forall|id: Txid| after.requested.contains(id) implies was_announced(events, id) by {
            if !before.requested.contains(id) {
                if let PeerEventView::Received(MessageView::Inv(items)) = events[last] {
                    lemma_announced(before.requested, items);
                    let k = choose|k: int|
                        0 <= k < after.requested.len() && after.requested[k] == id;
                    assert(announced(before.requested, items)[k] == id);
                    assert(announces(events[last], id));
                }
            }
        }
        assert forall|i: int| 0 <= i < after.fetched.len() implies was_received(
            events,
            #[trigger] after.fetched[i],
        ) by {
            if i < before.fetched.len() {
                assert(after.fetched[i] == before.fetched[i]);
            } else {
                assert(events[last] == PeerEventView::Received(MessageView::Tx(after.fetched[i])));
            }
        }
    }
}

/// In onion-only mode a peer on the clear net is not even connected to: whatever happens, there is
/// nothing to do, and nothing is fetched.
pub proof fn law_tor_only_fetches_nothing_on_the_clear_net(
    address: NetworkAddressView,
    relay: bool,
    limit: nat,
    events: Seq<PeerEventView>,
)
    requires
        address is Ip,
    ensures
        ({
            let f = fetch_after(first_fetch(address, true, relay, limit), events);
            &&& fetch_action(f) is Finish
            &&& f.stage == FetchStage::Done(Ok(()))
            &&& f.fetched.len() == 0
        }),
    decreases events.len(),
{
    if events.len() > 0 {
        law_tor_only_fetches_nothing_on_the_clear_net(address, relay, limit, events.drop_last());
    }
}

/// A fetch that was planned while the clear net was allowed and starts in onion-only mode is not
/// begun: whatever happens, there is nothing to do, and nothing is fetched. One that starts while
/// its peer is allowed goes on as planned.
pub proof fn law_start_heeds_the_mode(
    address: NetworkAddressView,
    planned: bool,
    now: bool,
    relay: bool,
    limit: nat,
    events: Seq<PeerEventView>,
)
    ensures
        ({
            let first = first_fetch(address, planned, relay, limit);
            let start = started(first, address, now);
            let f = fetch_after(start, events);
            &&& !address::allowed(address, now) ==> fetch_action(f) is Finish && f.stage
                == FetchStage::Done(Ok(())) && f.fetched.len() == 0
            &&& address::allowed(address, now) ==> start == first
        }),
    decreases events.len(),
{
    if events.len() > 0 {
        law_start_heeds_the_mode(address, planned, now, relay, limit, events.drop_last());
    }
}

/// The place of a stage in the order in which they come.
pub open spec fn rank(stage: FetchStage) -> int {
    match stage {
        FetchStage::Connecting => 0,
        FetchStage::Introducing => 1,
        FetchStage::AwaitingVersion => 2,
        FetchStage::SendingVerack => 3,
        FetchStage::SendingMemPool => 4,
        FetchStage::CollectingIds => 5,
        FetchStage::SendingGetData => 6,
        FetchStage::CollectingTxs => 7,
        FetchStage::Done(_) => 8,
    }
}

/// A fetch never goes back, and keeps what it has: the ids to ask for and the transactions only
/// grow, each at its end, and nothing changes once the fetch is over.
pub proof fn law_fetch_only_grows(f: FetchView, event: PeerEventView)
    requires
        sound(f),
    ensures
        next_fetch(f, event).stage == f.stage || rank(next_fetch(f, event).stage) > rank(f.stage),
        f.requested.is_prefix_of(next_fetch(f, event).requested),
        f.fetched.is_prefix_of(next_fetch(f, event).fetched),
        f.stage is Done ==> next_fetch(f, event) == f,
{
    let after = next_fetch(f, event);
    assert(f.fetched =~= after.fetched.subrange(0, f.fetched.len() as int));
    if f.stage is CollectingIds {
        if let PeerEventView::Received(MessageView::Inv(items)) = event {
            lemma_announced(f.requested, items);
            let all = announced(f.requested, items);
            assert(f.requested =~= all.subrange(0, f.requested.len() as int));
            assert(f.requested =~= after.requested.subrange(0, f.requested.len() as int));
        }
    }
    assert(f.requested =~= after.requested.subrange(0, f.requested.len() as int));
}

/// The announcement of some transactions.
pub open spec fn announcement(txs: Seq<TxView>) -> PeerEventView {
    PeerEventView::Received(
        MessageView::Inv(txs.map_values(|tx: TxView| InvItem::Transaction(tx.txid))),
    )
}

/// Some transactions, sent one after another.
pub open spec fn served(txs: Seq<TxView>) -> Seq<PeerEventView> {
    txs.map_values(|tx: TxView| PeerEventView::Received(MessageView::Tx(tx)))
}

/// What happens with a peer that takes every message, introduces itself, announces some
/// transactions and then sends them.
pub open spec fn good_course(
    introduction: PeerEventView,
    txs: Seq<TxView>,
) -> Seq<PeerEventView> {
    seq![
        PeerEventView::Connected,
        PeerEventView::Sent,
        introduction,
        PeerEventView::Sent,
        PeerEventView::Sent,
        announcement(txs),
        PeerEventView::Sent,
    ] + served(txs)
}

/// Announcing transactions with different ids announces just those ids.
proof fn lemma_announcement(txs: Seq<TxView>, items: Seq<InvItem>, k: int)
    requires
        0 <= k <= txs.len(),
        items == txs.map_values(|tx: TxView| InvItem::Transaction(tx.txid)),
        forall|i: int, j: int|
            0 <= i < j < txs.len() ==> (#[trigger] txs[i]).txid != (#[trigger] txs[j]).txid,
    ensures
        announced(Seq::empty(), items.take(k)) == txs.map_values(|tx: TxView| tx.txid).take(k),
    decreases k,
{
    let ids = txs.map_values(|tx: TxView| tx.txid);
    if k > 0 {
        lemma_announcement(txs, items, k - 1);
        assert(items.take(k).drop_last() =~= items.take(k - 1));
        assert(items.take(k).last() == InvItem::Transaction(txs[k - 1].txid));
        assert(!ids.take(k - 1).contains(txs[k - 1].txid)) by {
            if ids.take(k - 1).contains(txs[k - 1].txid) {
                let i = choose|i: int|
                    0 <= i < k - 1 && #[trigger] ids.take(k - 1)[i] == txs[k - 1].txid;
                assert(txs[i].txid == ids.take(k - 1)[i]);
            }
        }
        assert(ids.take(k) =~= ids.take(k - 1).push(txs[k - 1].txid));
    } else {
        assert(ids.take(0) =~= Seq::<Txid>::empty());
    }
}

/// The ids of the transactions from place `k` on.
spec fn ids_from(txs: Seq<TxView>, k: int) -> Set<Txid> {
    Set::new(|id: Txid| exists|j: int| k <= j < txs.len() && (#[trigger] txs[j]).txid == id)
}

/// How far a fetch is once the first `k` of the transactions came.
proof fn lemma_served(f: FetchView, txs: Seq<TxView>, k: int)
    requires
        0 <= k <= txs.len(),
        txs.len() == f.limit,
        txs.len() > 0,
        f.stage is CollectingTxs,
        f.fetched.len() == 0,
        f.pending == ids_from(txs, 0),
        forall|i: int, j: int|
            0 <= i < j < txs.len() ==> (#[trigger] txs[i]).txid != (#[trigger] txs[j]).txid,
    ensures
        fetch_after(f, served(txs).take(k)) == (FetchView {
            pending: ids_from(txs, k),
            fetched: txs.take(k),
            stage: if k == txs.len() {
                FetchStage::Done(Ok(()))
            } else {
                FetchStage::CollectingTxs
            },
            ..f
        }),
    decreases k,
{
    if k == 0 {
        assert(txs.take(0) =~= f.fetched);
    } else {
        lemma_served(f, txs, k - 1);
        let before = fetch_after(f, served(txs).take(k - 1));
        let tx = txs[k - 1];
        assert(served(txs).take(k).drop_last() =~= served(txs).take(k - 1));
        assert(served(txs).take(k).last() == PeerEventView::Received(MessageView::Tx(tx)));
        assert(before.pending.contains(tx.txid));
        assert(before.pending.remove(tx.txid) =~= ids_from(txs, k)) by {
            assert forall|id: Txid| #[trigger]
                before.pending.remove(tx.txid).contains(id) <==> ids_from(txs, k).contains(id) by {
                if ids_from(txs, k - 1).contains(id) && id != tx.txid {
                    let j = choose|j: int|
                        k - 1 <= j < txs.len() && (#[trigger] txs[j]).txid == id;
                    assert(k <= j);
                }
            }
        }
        assert(before.fetched.push(tx) =~= txs.take(k));
        if k < txs.len() {
            assert(ids_from(txs, k).contains(txs[k].txid));
            assert(ids_from(txs, k) != Set::<Txid>::empty());
        }
    }
}

/// A row of events after another.
proof fn lemma_fetch_after_concat(
    first: FetchView,
    a: Seq<PeerEventView>,
    b: Seq<PeerEventView>,
)
    ensures
        fetch_after(first, a + b) == fetch_after(fetch_after(first, a), b),
    decreases b.len(),
{
    if b.len() == 0 {
        assert(a + b =~= a);
    } else {
        assert((a + b).drop_last() =~= a + b.drop_last());
        lemma_fetch_after_concat(first, a, b.drop_last());
    }
}

/// A fetch succeeds: from a peer that may be spoken to, announces as many transactions as are
/// wanted and sends them, it takes just those, in the order in which they came.
pub proof fn law_fetch_succeeds(
    address: NetworkAddressView,
    tor_only: bool,
    relay: bool,
    introduction: PeerEventView,
    txs: Seq<TxView>,
)
    requires
        address::allowed(address, tor_only),
        introduction matches PeerEventView::Received(MessageView::Version { .. }),
        txs.len() > 0,
        forall|i: int, j: int|
            0 <= i < j < txs.len() ==> (#[trigger] txs[i]).txid != (#[trigger] txs[j]).txid,
    ensures
        ({
            let f = fetch_after(
                first_fetch(address, tor_only, relay, txs.len()),
                good_course(introduction, txs),
            );
            f.stage == FetchStage::Done(Ok(())) && f.fetched == txs
        }),
{
    let first = first_fetch(address, tor_only, relay, txs.len());
    let items = txs.map_values(|tx: TxView| InvItem::Transaction(tx.txid));
    let ids = txs.map_values(|tx: TxView| tx.txid);
    let opening = seq![
        PeerEventView::Connected,
        PeerEventView::Sent,
        introduction,
        PeerEventView::Sent,
        PeerEventView::Sent,
        announcement(txs),
        PeerEventView::Sent,
    ];
    let waiting = seq![
        PeerEventView::Connected,
        PeerEventView::Sent,
        introduction,
        PeerEventView::Sent,
        PeerEventView::Sent,
    ];
    lemma_announcement(txs, items, txs.len() as int);
    assert(items.take(txs.len() as int) =~= items);
    assert(ids.take(txs.len() as int) =~= ids);
    let listening = fetch_after(first, waiting);
    assert(listening == FetchView { stage: FetchStage::CollectingIds, ..first }) by {
        reveal_with_fuel(fetch_after, 6);
    }
    let announced_to = next_fetch(listening, announcement(txs));
    assert(announced_to == (FetchView {
        requested: ids,
        stage: FetchStage::SendingGetData,
        ..first
    }));
    let f = fetch_after(first, opening);
    assert(opening.drop_last().drop_last() =~= waiting);
    assert(fetch_after(first, opening.drop_last()) == announced_to);
    assert(ids.to_set() =~= ids_from(txs, 0)) by {
        assert forall|id: Txid| ids.to_set().contains(id) <==> ids_from(txs, 0).contains(id) by {
            if ids.contains(id) {
                let j = choose|j: int| 0 <= j < ids.len() && ids[j] == id;
                assert(txs[j].txid == id);
            }
            if ids_from(txs, 0).contains(id) {
                let j = choose|j: int| 0 <= j < txs.len() && (#[trigger] txs[j]).txid == id;
                assert(ids[j] == id);
            }
        }
    }
    assert(ids_from(txs, 0).contains(txs[0].txid));
    assert(f.stage is CollectingTxs);
    lemma_served(f, txs, txs.len() as int);
    assert(served(txs).take(txs.len() as int) =~= served(txs));
    assert(txs.take(txs.len() as int) =~= txs);
    lemma_fetch_after_concat(first, opening, served(txs));
}

/// Starts a fetch of at most `limit` transactions from the peer at `addr`.
pub fn fetch_peer_transactions(
    addr: &NetworkAddress,
    mode: &TorMode,
    relay: bool,
    limit: usize,
) -> (f: PeerFetch)
    ensures
        f.wf(),
        f@ == first_fetch(addr@, mode.only, relay, limit as nat),
{
    let stage = if tor_only_enabled(mode) && addr.is_clearnet() {
        FetchStage::Done(Ok(()))
    } else {
        FetchStage::Connecting
    };
    let f = PeerFetch {
        relay,
        limit,
        announced: TxidSet::new(),
        requested: Vec::new(),
        pending: TxidSet::new(),
        fetched: Vec::new(),
        stage,
    };
    assert(f@.fetched =~= Seq::<TxView>::empty());
    assert(f@.requested =~= Seq::<Txid>::empty());
    assert(f.announced@ =~= f.requested@.to_set());
    f
}

/// The views of a list of transactions are those of its items, one for one.
pub proof fn law_tx_views(list: Seq<Tx>)
    ensures
        tx_views(list).len() == list.len(),
        forall|i: int| 0 <= i < list.len() ==> #[trigger] tx_views(list)[i] == list[i]@,
{
}

/// Where a fetch begins and starts: with nothing asked for and nothing fetched, a peer on the clear
/// net is left alone in onion-only mode, and every other peer is connected to.
pub proof fn law_fetch_begins(
    address: NetworkAddressView,
    tor_only: bool,
    relay: bool,
    limit: nat,
    f: FetchView,
)
    ensures
        ({
            let first = first_fetch(address, tor_only, relay, limit);
            &&& first.relay == relay
            &&& first.limit == limit
            &&& first.requested.len() == 0
            &&& first.pending == Set::<Txid>::empty()
            &&& first.fetched.len() == 0
            &&& first.stage == FetchStage::Done(Ok(())) <==> tor_only && address is Ip
            &&& first.stage == FetchStage::Connecting <==> !(tor_only && address is Ip)
        }),
        f.stage is Connecting && tor_only && address is Ip ==> started(f, address, tor_only) == (
        FetchView { stage: FetchStage::Done(Ok(())), ..f }),
        !(f.stage is Connecting && tor_only && address is Ip) ==> started(f, address, tor_only)
            == f,
{
}

/// What is said and awaited at each stage of a fetch.
pub proof fn law_fetch_speaks(f: FetchView)
    ensures
        f.stage is Connecting ==> fetch_action(f) == (ActionView::Connect { timeout_secs: 12 }),
        f.stage is Introducing ==> fetch_action(f) == ActionView::Send(
            RequestView::Version { relay: f.relay },
        ),
        f.stage is AwaitingVersion ==> fetch_action(f) == ActionView::Receive(Patience::Total(5)),
        f.stage is SendingVerack ==> fetch_action(f) == ActionView::Send(RequestView::Verack),
        f.stage is SendingMemPool ==> fetch_action(f) == ActionView::Send(RequestView::MemPool),
        f.stage is CollectingIds ==> fetch_action(f) == ActionView::Receive(Patience::Each(12)),
        f.stage is SendingGetData ==> fetch_action(f) == ActionView::Send(
            RequestView::GetData(f.requested),
        ),
        f.stage is CollectingTxs ==> fetch_action(f) == ActionView::Receive(Patience::Each(12)),
        f.stage is Done ==> fetch_action(f) is Finish,
{
}

/// How the opening of a fetch answers every event: the peer that was reached is greeted, and once it
/// has introduced itself, with whatever services, it is answered and asked for its memory pool.
/// Nothing but the stage changes, and everything that is no answer changes nothing.
pub proof fn law_fetch_opens(f: FetchView, event: PeerEventView)
    ensures
        f.stage is Connecting || f.stage is Introducing || f.stage is AwaitingVersion || f.stage
            is SendingVerack || f.stage is SendingMemPool ==> next_fetch(f, event) == (FetchView {
            stage: next_fetch(f, event).stage,
            ..f
        }),
        f.stage is Connecting ==> ({
            let n = next_fetch(f, event).stage;
            &&& n == FetchStage::Introducing <==> event is Connected
            &&& n == FetchStage::Done(Err(PeerError::ConnectTimeout)) <==> event is TimedOut
            &&& n == FetchStage::Done(Err(PeerError::Connect)) <==> event is Failed
            &&& n == FetchStage::Connecting <==> event is Sent || event is Received
        }),
        f.stage is Introducing ==> ({
            let n = next_fetch(f, event).stage;
            &&& n == FetchStage::AwaitingVersion <==> event is Sent
            &&& n == FetchStage::Done(Err(PeerError::Send)) <==> event is Failed
            &&& n == FetchStage::Introducing <==> !(event is Sent || event is Failed)
        }),
        f.stage is AwaitingVersion ==> ({
            let n = next_fetch(f, event).stage;
            &&& n == FetchStage::SendingVerack <==> (event matches PeerEventView::Received(m) && m
                is Version)
            &&& n == FetchStage::Done(Err(PeerError::VersionTimeout)) <==> event is TimedOut
            &&& n == FetchStage::Done(Err(PeerError::Read)) <==> event is Failed
            &&& n == FetchStage::AwaitingVersion <==> {
                ||| event is Connected
                ||| event is Sent
                ||| (event matches PeerEventView::Received(m) && !(m is Version))
            }
        }),
        f.stage is SendingVerack ==> ({
            let n = next_fetch(f, event).stage;
            &&& n == FetchStage::SendingMemPool <==> event is Sent
            &&& n == FetchStage::Done(Err(PeerError::Send)) <==> event is Failed
            &&& n == FetchStage::SendingVerack <==> !(event is Sent || event is Failed)
        }),
        f.stage is SendingMemPool ==> ({
            let n = next_fetch(f, event).stage;
            &&& n == FetchStage::CollectingIds <==> event is Sent
            &&& n == FetchStage::Done(Err(PeerError::Send)) <==> event is Failed
            &&& n == FetchStage::SendingMemPool <==> !(event is Sent || event is Failed)
        }),
{
}

/// What one announced item adds to the ids to ask for: the id of a transaction that is not among
/// them, at the end, and nothing else.
pub proof fn law_one_item_is_queued(requested: Seq<Txid>, item: InvItem, limit: nat)
    requires
        requested.len() < limit || (limit == 0 && requested.len() == 0),
    ensures
        queued(requested, Seq::empty(), limit) == requested,
        item is Other ==> queued(requested, seq![item], limit) == requested,
        forall|id: Txid|
            item == InvItem::Transaction(id) && (exists|i: int|
                0 <= i < requested.len() && #[trigger] requested[i] == id) ==> queued(
                requested,
                seq![item],
                limit,
            ) == requested,
        forall|id: Txid|
            item == InvItem::Transaction(id) && (forall|i: int|
                0 <= i < requested.len() ==> #[trigger] requested[i] != id) ==> queued(
                requested,
                seq![item],
                limit,
            ) == requested.push(id),
{
    reveal_with_fuel(announced, 2);
    assert(seq![item].drop_last() =~= Seq::<InvItem>::empty());
    assert(seq![item].last() == item);
}

/// Announcing some items and then more is announcing them at once, until as many ids are queued as
/// are asked for: then nothing more is added.
pub proof fn law_items_are_queued_in_turn(
    requested: Seq<Txid>,
    a: Seq<InvItem>,
    b: Seq<InvItem>,
    limit: nat,
)
    requires
        requested.len() < limit || (limit == 0 && requested.len() == 0),
    ensures
        ({
            let first = queued(requested, a, limit);
            let cap = if limit == 0 {
                1
            } else {
                limit
            };
            &&& first.len() <= cap
            &&& first.len() == cap ==> queued(requested, a + b, limit) == first
            &&& first.len() < cap ==> queued(requested, a + b, limit) == queued(first, b, limit)
        }),
{
    let cap = request_cap(limit);
    let first = announced(requested, a);
    let all = announced(requested, a + b);
    lemma_announced_grows(requested, a + b, a.len() as int);
    assert((a + b).take(a.len() as int) =~= a);
    lemma_announced_concat(requested, a, b);
    assert(first =~= all.subrange(0, first.len() as int));
    if first.len() >= cap {
        assert(all.take(cap as int) =~= first.take(cap as int));
        assert(first.take(first.len() as int) =~= first);
        assert(all.len() == first.len() ==> all =~= first);
        assert(queued(requested, a, limit) =~= first.take(cap as int));
        assert(all.take(all.len() as int) =~= all);
        assert(queued(requested, a + b, limit) =~= all.take(cap as int));
    }
}

/// Announcements one after another.
proof fn lemma_announced_concat(known: Seq<Txid>, a: Seq<InvItem>, b: Seq<InvItem>)
    ensures
        announced(known, a + b) == announced(announced(known, a), b),
    decreases b.len(),
{
    if b.len() == 0 {
        assert(a + b =~= a);
    } else {
        assert((a + b).drop_last() =~= a + b.drop_last());
        lemma_announced_concat(known, a, b.drop_last());
    }
}

/// How a fetch that collects ids answers every event: an announcement adds its ids, and the fetch
/// goes on to ask once it has as many as are wanted; silence and a broken connection end the
/// announcements; what was announced is then asked for, and if that is nothing the fetch is over.
pub proof fn law_fetch_collects_ids(f: FetchView, event: PeerEventView)
    requires
        f.stage is CollectingIds,
    ensures
        ({
            let n = next_fetch(f, event);
            let r = match event {
                PeerEventView::Received(MessageView::Inv(items)) => queued(
                    f.requested,
                    items,
                    f.limit,
                ),
                _ => f.requested,
            };
            let over = match event {
                PeerEventView::Received(MessageView::Inv(_)) => r.len() >= f.limit,
                PeerEventView::TimedOut => true,
                PeerEventView::Failed => true,
                _ => false,
            };
            &&& n == (FetchView { requested: r, stage: n.stage, ..f })
            &&& n.stage == FetchStage::CollectingIds <==> !over
            &&& n.stage == FetchStage::SendingGetData <==> over && r.len() > 0
            &&& n.stage == FetchStage::Done(Ok(())) <==> over && r.len() == 0
        }),
{
}

/// Once the request is sent, the fetch waits for all that was asked for, whatever the limit, unless
/// nothing is wanted; a request that cannot be sent fails the fetch.
pub proof fn law_fetch_awaits_what_was_asked_for(f: FetchView, event: PeerEventView)
    requires
        f.stage is SendingGetData,
        f.requested.len() > 0,
        f.fetched.len() == 0,
    ensures
        ({
            let n = next_fetch(f, event);
            &&& event is Sent ==> {
                &&& n.requested == f.requested
                &&& n.fetched == f.fetched
                &&& n.limit == f.limit
                &&& n.relay == f.relay
                &&& forall|id: Txid|
                    #![trigger n.pending.contains(id)]
                    n.pending.contains(id) <==> exists|i: int|
                        0 <= i < f.requested.len() && #[trigger] f.requested[i] == id
                &&& f.limit > 0 ==> n.stage == FetchStage::CollectingTxs
                &&& f.limit == 0 ==> n.stage == FetchStage::Done(Ok(()))
            }
            &&& event is Failed ==> n == (FetchView {
                stage: FetchStage::Done(Err(PeerError::Send)),
                ..f
            })
            &&& !(event is Sent || event is Failed) ==> n == f
        }),
{
    assert(f.requested.to_set().contains(f.requested[0]));
    assert(f.requested.to_set() != Set::<Txid>::empty());
}

/// How a fetch that collects transactions answers every event. A transaction is kept if and only if
/// it is still awaited; then, or once the peer lacks it, it is awaited no more. The fetch goes on
/// until nothing is awaited or as many are kept as are wanted, or the peer falls silent or is lost.
pub proof fn law_fetch_collects_txs(f: FetchView, event: PeerEventView)
    requires
        f.stage is CollectingTxs,
        exists|id: Txid| f.pending.contains(id),
        f.fetched.len() < f.limit,
    ensures
        ({
            let n = next_fetch(f, event);
            &&& n.requested == f.requested && n.limit == f.limit && n.relay == f.relay
            &&& match event {
                PeerEventView::Received(MessageView::Tx(tx)) => {
                    &&& f.pending.contains(tx.txid) ==> n.fetched == f.fetched.push(tx)
                    &&& !f.pending.contains(tx.txid) ==> n.fetched == f.fetched
                    &&& forall|id: Txid| #[trigger]
                        n.pending.contains(id) <==> f.pending.contains(id) && id != tx.txid
                },
                PeerEventView::Received(MessageView::NotFound(items)) => {
                    &&& n.fetched == f.fetched
                    &&& forall|id: Txid|
                        #![trigger n.pending.contains(id)]
                        n.pending.contains(id) <==> f.pending.contains(id) && forall|i: int|
                            0 <= i < items.len() ==> #[trigger] items[i] != InvItem::Transaction(
                                id,
                            )
                },
                _ => n.fetched == f.fetched && n.pending == f.pending,
            }
            &&& n.stage == FetchStage::Done(Ok(())) <==> {
                ||| event is TimedOut
                ||| event is Failed
                ||| (forall|id: Txid| !#[trigger] n.pending.contains(id))
                ||| n.fetched.len() >= f.limit
            }
            &&& n.stage == FetchStage::CollectingTxs || n.stage == FetchStage::Done(Ok(()))
        }),
{
    let n = next_fetch(f, event);
    assert(f.pending != Set::<Txid>::empty()) by {
        let id = choose|id: Txid| f.pending.contains(id);
        assert(!Set::<Txid>::empty().contains(id));
    }
    if forall|id: Txid| !#[trigger] n.pending.contains(id) {
        assert(n.pending =~= Set::<Txid>::empty());
    }
    match event {
        PeerEventView::Received(MessageView::NotFound(items)) => {
            assert forall|id: Txid|
                named(items).contains(id) <==> exists|i: int|
                    0 <= i < items.len() && #[trigger] items[i] == InvItem::Transaction(id) by {}
        },
        PeerEventView::Received(MessageView::Tx(tx)) => {
            if !f.pending.contains(tx.txid) {
                let id = choose|id: Txid| f.pending.contains(id);
                assert(n.pending.contains(id));
            }
        },
        _ => {
            let id = choose|id: Txid| f.pending.contains(id);
            assert(n.pending.contains(id));
        },
    }
}

/// A fetch that is over stays so.
pub proof fn law_fetch_stays_over(f: FetchView, event: PeerEventView)
    ensures
        f.stage is Done ==> next_fetch(f, event) == f,
{
}

/// The announcements of groups of transactions, one message for each group.
pub open spec fn announcements(groups: Seq<Seq<TxView>>) -> Seq<PeerEventView> {
    groups.map_values(|group: Seq<TxView>| announcement(group))
}

/// The transactions of all groups, one group after another.
pub open spec fn together(groups: Seq<Seq<TxView>>) -> Seq<TxView>
    decreases groups.len(),
{
    if groups.len() == 0 {
        Seq::empty()
    } else {
        together(groups.drop_last()) + groups.last()
    }
}

/// The ids of the transactions, in order.
spec fn ids_in_order(txs: Seq<TxView>) -> Seq<Txid> {
    txs.map_values(|tx: TxView| tx.txid)
}

/// Announcing new transactions with different ids adds just their ids.
proof fn lemma_announce_more(known: Seq<Txid>, txs: Seq<TxView>, k: int)
    requires
        0 <= k <= txs.len(),
        (known + ids_in_order(txs)).no_duplicates(),
    ensures
        announced(
            known,
            txs.map_values(|tx: TxView| InvItem::Transaction(tx.txid)).take(k),
        ) == known + ids_in_order(txs).take(k),
    decreases k,
{
    let items = txs.map_values(|tx: TxView| InvItem::Transaction(tx.txid));
    let ids = ids_in_order(txs);
    if k == 0 {
        assert(known + ids.take(0) =~= known);
    } else {
        lemma_announce_more(known, txs, k - 1);
        assert(items.take(k).drop_last() =~= items.take(k - 1));
        assert(items.take(k).last() == InvItem::Transaction(txs[k - 1].txid));
        let before = known + ids.take(k - 1);
        assert(!before.contains(txs[k - 1].txid)) by {
            if before.contains(txs[k - 1].txid) {
                let i = choose|i: int| 0 <= i < before.len() && before[i] == txs[k - 1].txid;
                assert((known + ids)[i] == (known + ids)[known.len() + k - 1]);
            }
        }
        assert(known + ids.take(k) =~= before.push(txs[k - 1].txid));
    }
}

/// How far a fetch is once the first `k` groups were announced.
proof fn lemma_groups_announced(f: FetchView, groups: Seq<Seq<TxView>>, k: int)
    requires
        0 <= k <= groups.len(),
        f.stage is CollectingIds,
        f.requested.len() == 0,
        0 < together(groups).len() <= f.limit,
        ids_in_order(together(groups)).no_duplicates(),
    ensures
        ({
            let n = fetch_after(f, announcements(groups).take(k));
            let ids = ids_in_order(together(groups.take(k)));
            &&& n == (FetchView { requested: ids, stage: n.stage, ..f })
            &&& n.stage == if ids.len() >= f.limit {
                FetchStage::SendingGetData
            } else {
                FetchStage::CollectingIds
            }
        }),
        together(groups.take(k)).is_prefix_of(together(groups)),
    decreases k,
{
    lemma_together_grows(groups, k);
    let events = announcements(groups);
    if k == 0 {
        assert(events.take(0) =~= Seq::<PeerEventView>::empty());
        assert(ids_in_order(together(groups.take(0))) =~= f.requested);
    } else {
        lemma_groups_announced(f, groups, k - 1);
        lemma_together_grows(groups, k - 1);
        let before = fetch_after(f, events.take(k - 1));
        let group = groups[k - 1];
        assert(events.take(k).drop_last() =~= events.take(k - 1));
        assert(events.take(k).last() == announcement(group));
        assert(groups.take(k).drop_last() =~= groups.take(k - 1));
        assert(groups.take(k).last() == group);
        let sofar = together(groups.take(k - 1));
        let more = together(groups.take(k));
        assert(more =~= sofar + group);
        assert(ids_in_order(more) =~= ids_in_order(sofar) + ids_in_order(group));
        assert(ids_in_order(more).no_duplicates()) by {
            let all = ids_in_order(together(groups));
            assert(more =~= together(groups).subrange(0, more.len() as int));
            assert forall|i: int, j: int|
                0 <= i < ids_in_order(more).len() && 0 <= j < ids_in_order(more).len() && i
                    != j implies ids_in_order(more)[i] != ids_in_order(more)[j] by {
                assert(ids_in_order(more)[i] == all[i]);
                assert(ids_in_order(more)[j] == all[j]);
            }
        }
        let items = group.map_values(|tx: TxView| InvItem::Transaction(tx.txid));
        lemma_announce_more(ids_in_order(sofar), group, group.len() as int);
        assert(items.take(group.len() as int) =~= items);
        assert(ids_in_order(group).take(group.len() as int) =~= ids_in_order(group));
        if before.stage is SendingGetData {
            assert(group.len() == 0);
            assert(more =~= sofar);
        }
    }
}

/// The first groups hold the first transactions.
proof fn lemma_together_grows(groups: Seq<Seq<TxView>>, k: int)
    requires
        0 <= k <= groups.len(),
    ensures
        together(groups.take(k)).is_prefix_of(together(groups)),
    decreases groups.len() - k,
{
    if k == groups.len() {
        assert(groups.take(k) =~= groups);
        assert(together(groups).is_prefix_of(together(groups)));
    } else {
        lemma_together_grows(groups, k + 1);
        let small = together(groups.take(k));
        let middle = together(groups.take(k + 1));
        let large = together(groups);
        assert(groups.take(k + 1).drop_last() =~= groups.take(k));
        assert(middle == small + groups[k]);
        assert(small =~= large.subrange(0, small.len() as int)) by {
            assert(middle =~= large.subrange(0, middle.len() as int));
        }
    }
}

/// How far a fetch is once the first `k` of the transactions came, whatever the limit above them.
proof fn lemma_arrived(f: FetchView, txs: Seq<TxView>, k: int)
    requires
        0 <= k <= txs.len(),
        0 < txs.len() <= f.limit,
        f.stage is CollectingTxs,
        f.fetched.len() == 0,
        f.pending == ids_from(txs, 0),
        forall|i: int, j: int|
            0 <= i < j < txs.len() ==> (#[trigger] txs[i]).txid != (#[trigger] txs[j]).txid,
    ensures
        fetch_after(f, served(txs).take(k)) == (FetchView {
            pending: ids_from(txs, k),
            fetched: txs.take(k),
            stage: if k == txs.len() {
                FetchStage::Done(Ok(()))
            } else {
                FetchStage::CollectingTxs
            },
            ..f
        }),
    decreases k,
{
    if k == 0 {
        assert(txs.take(0) =~= f.fetched);
    } else {
        lemma_arrived(f, txs, k - 1);
        let before = fetch_after(f, served(txs).take(k - 1));
        let tx = txs[k - 1];
        assert(served(txs).take(k).drop_last() =~= served(txs).take(k - 1));
        assert(served(txs).take(k).last() == PeerEventView::Received(MessageView::Tx(tx)));
        assert(before.pending.contains(tx.txid));
        assert(before.pending.remove(tx.txid) =~= ids_from(txs, k)) by {
            assert forall|id: Txid| #[trigger]
                before.pending.remove(tx.txid).contains(id) <==> ids_from(txs, k).contains(id) by {
                if ids_from(txs, k - 1).contains(id) && id != tx.txid {
                    let j = choose|j: int|
                        k - 1 <= j < txs.len() && (#[trigger] txs[j]).txid == id;
                    assert(k <= j);
                }
            }
        }
        assert(before.fetched.push(tx) =~= txs.take(k));
        if k < txs.len() {
            assert(ids_from(txs, k).contains(txs[k].txid));
            assert(ids_from(txs, k) != Set::<Txid>::empty());
        } else {
            assert(ids_from(txs, k) =~= Set::<Txid>::empty());
        }
    }
}

/// The ids of all transactions.
proof fn lemma_ids_from_start(txs: Seq<TxView>)
    ensures
        txs.map_values(|tx: TxView| tx.txid).to_set() == ids_from(txs, 0),
{
    let ids = txs.map_values(|tx: TxView| tx.txid);
    assert forall|id: Txid| ids.to_set().contains(id) <==> ids_from(txs, 0).contains(id) by {
        if ids.contains(id) {
            let j = choose|j: int| 0 <= j < ids.len() && ids[j] == id;
            assert(txs[j].txid == id);
        }
        if ids_from(txs, 0).contains(id) {
            let j = choose|j: int| 0 <= j < txs.len() && (#[trigger] txs[j]).txid == id;
            assert(ids[j] == id);
        }
    }
    assert(ids.to_set() =~= ids_from(txs, 0));
}

/// A fetch from a peer that may be spoken to and introduces itself comes to collecting ids.
proof fn lemma_fetch_opened(first: FetchView, services: u64, user_agent: Seq<char>)
    requires
        first.stage is Connecting,
    ensures
        fetch_after(
            first,
            seq![
                PeerEventView::Connected,
                PeerEventView::Sent,
                PeerEventView::Received(MessageView::Version { services, user_agent }),
                PeerEventView::Sent,
                PeerEventView::Sent,
            ],
        ) == (FetchView { stage: FetchStage::CollectingIds, ..first }),
{
    reveal_with_fuel(fetch_after, 6);
}

/// Silence and the sending of what it leads to are one step each.
proof fn lemma_fetch_paused(heard: FetchView)
    ensures
        fetch_after(heard, seq![PeerEventView::TimedOut, PeerEventView::Sent]) == next_fetch(
            next_fetch(heard, PeerEventView::TimedOut),
            PeerEventView::Sent,
        ),
{
    let pause = seq![PeerEventView::TimedOut, PeerEventView::Sent];
    reveal_with_fuel(fetch_after, 3);
    assert(pause.drop_last() =~= seq![PeerEventView::TimedOut]);
    assert(pause.drop_last().drop_last() =~= Seq::<PeerEventView>::empty());
}

/// Transactions with different ids have ids that do not repeat.
proof fn lemma_ids_differ(txs: Seq<TxView>)
    requires
        forall|i: int, j: int|
            0 <= i < j < txs.len() ==> (#[trigger] txs[i]).txid != (#[trigger] txs[j]).txid,
    ensures
        ids_in_order(txs).no_duplicates(),
{
    let ids = ids_in_order(txs);
    assert forall|i: int, j: int|
        0 <= i < ids.len() && 0 <= j < ids.len() && i != j implies ids[i] != ids[j] by {
        if i < j {
            assert(txs[i].txid != txs[j].txid);
        } else {
            assert(txs[j].txid != txs[i].txid);
        }
    }
}

/// Where a fetch stands once a peer announced all groups, fell silent and was asked for them.
proof fn lemma_asked_for_all(listening: FetchView, groups: Seq<Seq<TxView>>)
    requires
        listening.stage is CollectingIds,
        listening.requested.len() == 0,
        listening.fetched.len() == 0,
        0 < together(groups).len() <= listening.limit,
        ids_in_order(together(groups)).no_duplicates(),
    ensures
        fetch_after(
            fetch_after(listening, announcements(groups)),
            seq![PeerEventView::TimedOut, PeerEventView::Sent],
        ) == (FetchView {
            requested: ids_in_order(together(groups)),
            pending: ids_in_order(together(groups)).to_set(),
            stage: FetchStage::CollectingTxs,
            ..listening
        }),
{
    let told = announcements(groups);
    let ids = ids_in_order(together(groups));
    lemma_groups_announced(listening, groups, groups.len() as int);
    assert(groups.take(groups.len() as int) =~= groups);
    assert(told.take(groups.len() as int) =~= told);
    lemma_fetch_paused(fetch_after(listening, told));
    assert(ids.to_set().contains(ids[0]));
}

/// All that a peer announces and serves is fetched, as long as no more is announced than is wanted:
/// from a peer that may be spoken to, takes every message, introduces itself, announces transactions
/// in any number of messages, falls silent, and then sends them in whatever order, the fetch ends
/// with just those, in the order in which they came.
pub proof fn law_fetch_gets_all_that_is_served(
    address: NetworkAddressView,
    tor_only: bool,
    relay: bool,
    limit: nat,
    services: u64,
    user_agent: Seq<char>,
    groups: Seq<Seq<TxView>>,
    arrivals: Seq<TxView>,
)
    requires
        !tor_only || address is Onion,
        0 < together(groups).len() <= limit,
        forall|i: int, j: int|
            0 <= i < j < together(groups).len() ==> (#[trigger] together(groups)[i]).txid != (
            #[trigger] together(groups)[j]).txid,
        arrivals.len() == together(groups).len(),
        forall|i: int, j: int|
            0 <= i < j < arrivals.len() ==> (#[trigger] arrivals[i]).txid != (
            #[trigger] arrivals[j]).txid,
        arrivals.map_values(|tx: TxView| tx.txid).to_set() == together(groups).map_values(
            |tx: TxView| tx.txid,
        ).to_set(),
    ensures
        ({
            let events = seq![
                PeerEventView::Connected,
                PeerEventView::Sent,
                PeerEventView::Received(MessageView::Version { services, user_agent }),
                PeerEventView::Sent,
                PeerEventView::Sent,
            ] + announcements(groups) + seq![PeerEventView::TimedOut, PeerEventView::Sent]
                + served(arrivals);
            let f = fetch_after(first_fetch(address, tor_only, relay, limit), events);
            &&& f.stage == FetchStage::Done(Ok(()))
            &&& f.fetched == arrivals
        }),
{
    let first = first_fetch(address, tor_only, relay, limit);
    let opening = seq![
        PeerEventView::Connected,
        PeerEventView::Sent,
        PeerEventView::Received(MessageView::Version { services, user_agent }),
        PeerEventView::Sent,
        PeerEventView::Sent,
    ];
    let told = announcements(groups);
    let pause = seq![PeerEventView::TimedOut, PeerEventView::Sent];
    lemma_ids_differ(together(groups));
    lemma_fetch_opened(first, services, user_agent);
    lemma_asked_for_all(fetch_after(first, opening), groups);
    lemma_fetch_after_concat(first, opening, told);
    lemma_fetch_after_concat(first, opening + told, pause);
    lemma_fetch_after_concat(first, opening + told + pause, served(arrivals));
    lemma_ids_from_start(arrivals);
    lemma_arrived(
        fetch_after(first, opening + told + pause),
        arrivals,
        arrivals.len() as int,
    );
    assert(served(arrivals).take(arrivals.len() as int) =~= served(arrivals));
    assert(arrivals.take(arrivals.len() as int) =~= arrivals);
}

} // verus!
