//! Fetching transactions from peers and sending them on, over and over.
use crate::gather;
use crate::hexcode;
use crate::seqs;
use crate::tx::{encode_transaction_hex, Tx, TxView, Txid};
use crate::txid_set::TxidSet;
use crate::fetch_peer;
use vstd::prelude::*;
use vstd::utf8;

verus! {

/// How many workers relay side by side.
pub const RELAY_WORKERS: u64 = 3;

/// How far a worker has come.
#[derive(Clone, Copy, Debug, PartialEq, Eq, Structural)]
pub enum RelayStage {
    /// Holding back, so that not all workers fetch at the same instant.
    Starting,
    /// Waiting for the next cycle.
    Waiting,
    /// Fetching transactions.
    Fetching,
    /// Sending them on.
    Blasting,
    Stopped,
}

/// What a worker is to do next.
#[derive(Debug)]
pub enum RelayAction {
    /// Sleep for so many seconds.
    Sleep(u64),
    /// Wait for the next tick.
    AwaitTick,
    /// Fetch transactions, at most so many.
    Fetch { limit: usize, tor_only: bool, relay: bool },
    /// Send a transaction to the peers.
    Blast { tx_hex: String, tor_only: bool, relay: bool },
    /// Stop.
    Stop,
}

/// What a [`RelayAction`] says.
pub enum RelayActionView {
    Sleep(u64),
    AwaitTick,
    Fetch { limit: nat, tor_only: bool, relay: bool },
    Blast { tx_hex: Seq<char>, tor_only: bool, relay: bool },
    Stop,
}

impl View for RelayAction {
    type V = RelayActionView;

    open spec fn view(&self) -> RelayActionView {
        match self {
            RelayAction::Sleep(secs) => RelayActionView::Sleep(*secs),
            RelayAction::AwaitTick => RelayActionView::AwaitTick,
            RelayAction::Fetch { limit, tor_only, relay } => RelayActionView::Fetch {
                limit: *limit as nat,
                tor_only: *tor_only,
                relay: *relay,
            },
            RelayAction::Blast { tx_hex, tor_only, relay } => RelayActionView::Blast {
                tx_hex: tx_hex@,
                tor_only: *tor_only,
                relay: *relay,
            },
            RelayAction::Stop => RelayActionView::Stop,
        }
    }
}

/// What came of an action.
#[derive(Debug)]
pub enum RelayEvent {
    Slept,
    Ticked,
    /// The user wants an end: that may come in place of what any action gives.
    Interrupted,
    /// These transactions were fetched, in this order.
    Fetched(Vec<Tx>),
    /// Nothing could be fetched.
    FetchFailed,
    /// The transaction was sent, or could not be.
    Blasted,
}

/// What a [`RelayEvent`] says.
pub enum RelayEventView {
    Slept,
    Ticked,
    Interrupted,
    Fetched(Seq<TxView>),
    FetchFailed,
    Blasted,
}

impl View for RelayEvent {
    type V = RelayEventView;

    open spec fn view(&self) -> RelayEventView {
        match self {
            RelayEvent::Slept => RelayEventView::Slept,
            RelayEvent::Ticked => RelayEventView::Ticked,
            RelayEvent::Interrupted => RelayEventView::Interrupted,
            RelayEvent::Fetched(txs) => RelayEventView::Fetched(fetch_peer::tx_views(txs@)),
            RelayEvent::FetchFailed => RelayEventView::FetchFailed,
            RelayEvent::Blasted => RelayEventView::Blasted,
        }
    }
}

/// What a worker is told, once and for all.
#[derive(Clone, Copy, Debug, PartialEq, Eq, Structural)]
pub struct RelayConfig {
    /// The number of the worker, from 1.
    pub worker_id: u64,
    /// How many transactions to fetch in a cycle at most.
    pub limit: usize,
    pub tor_only: bool,
    pub relay: bool,
    /// Seconds from tick to tick.
    pub interval_secs: u64,
}

/// What a [`RelayWorker`] says.
#[verifier::ext_equal]
pub struct RelayView {
    pub config: RelayConfig,
    /// The transactions that were sent on, or are about to be.
    pub seen: Set<Txid>,
    /// The transactions to send on, the next one first.
    pub queue: Seq<TxView>,
    pub stage: RelayStage,
}

/// A worker that fetches transactions from peers and sends them on.
#[derive(Debug)]
pub struct RelayWorker {
    config: RelayConfig,
    seen: TxidSet,
    queue: Vec<Tx>,
    stage: RelayStage,
}

impl View for RelayWorker {
    type V = RelayView;

    closed spec fn view(&self) -> RelayView {
        RelayView {
            config: self.config,
            seen: self.seen@,
            queue: fetch_peer::tx_views(self.queue@),
            stage: self.stage,
        }
    }
}

/// A worker at its start.
pub open spec fn first_relay(config: RelayConfig) -> RelayView {
    RelayView { config, seen: Set::empty(), queue: Seq::empty(), stage: RelayStage::Starting }
}

/// The action that is next.
pub open spec fn relay_action(w: RelayView) -> RelayActionView {
    match w.stage {
        RelayStage::Starting => RelayActionView::Sleep((w.config.worker_id - 1) as u64),
        RelayStage::Waiting => RelayActionView::AwaitTick,
        RelayStage::Fetching => RelayActionView::Fetch {
            limit: w.config.limit as nat,
            tor_only: w.config.tor_only,
            relay: w.config.relay,
        },
        RelayStage::Blasting => RelayActionView::Blast {
            tx_hex: hexcode::hex_text(w.queue[0].raw),
            tor_only: w.config.tor_only,
            relay: w.config.relay,
        },
        RelayStage::Stopped => RelayActionView::Stop,
    }
}

/// `txs` without those whose ids are in `seen` or came earlier in `txs`.
pub open spec fn fresh(seen: Set<Txid>, txs: Seq<TxView>) -> Seq<TxView>
    decreases txs.len(),
{
    if txs.len() == 0 {
        Seq::empty()
    } else {
        let before = fresh(seen, txs.drop_last());
        if seen.contains(txs.last().txid) || gather::holds(before, txs.last().txid) {
            before
        } else {
            before.push(txs.last())
        }
    }
}

/// The ids of some transactions.
pub open spec fn ids_of(txs: Seq<TxView>) -> Set<Txid> {
    Set::new(|id: Txid| gather::holds(txs, id))
}

/// A worker that sends on what is left in its queue, if anything is.
pub open spec fn with_queue(w: RelayView, queue: Seq<TxView>) -> RelayView {
    RelayView {
        queue,
        stage: if queue.len() == 0 {
            RelayStage::Waiting
        } else {
            RelayStage::Blasting
        },
        ..w
    }
}

/// A worker after an event: an interrupt stops it whatever it is doing, and leaves in its queue what
/// was not sent on.
pub open spec fn next_relay(w: RelayView, event: RelayEventView) -> RelayView {
    match (w.stage, event) {
        (_, RelayEventView::Interrupted) => RelayView { stage: RelayStage::Stopped, ..w },
        (RelayStage::Starting, RelayEventView::Slept) => RelayView {
            stage: RelayStage::Waiting,
            ..w
        },
        (RelayStage::Waiting, RelayEventView::Ticked) => RelayView {
            stage: RelayStage::Fetching,
            ..w
        },
        (RelayStage::Fetching, RelayEventView::Fetched(txs)) => with_queue(
            RelayView { seen: w.seen.union(ids_of(txs)), ..w },
            fresh(w.seen, txs),
        ),
        (RelayStage::Fetching, RelayEventView::FetchFailed) => RelayView {
            stage: RelayStage::Waiting,
            ..w
        },
        (RelayStage::Blasting, RelayEventView::Blasted) => with_queue(w, w.queue.drop_first()),
        _ => w,
    }
}

/// The workers that relay side by side, numbered from 1.
pub fn relay_transactions(limit: usize, tor_only: bool, relay: bool, interval_secs: u64) -> (workers:
    Vec<RelayWorker>)
    requires
        interval_secs > 0,
    ensures
        workers@.len() == RELAY_WORKERS,
        forall|i: int|
            0 <= i < workers@.len() ==> {
                &&& (#[trigger] workers@[i]).wf()
                &&& workers@[i]@ == first_relay(
                    RelayConfig {
                        worker_id: (i + 1) as u64,
                        limit,
                        tor_only,
                        relay,
                        interval_secs,
                    },
                )
            },
{
    let mut workers: Vec<RelayWorker> = Vec::new();
    for id in 0..RELAY_WORKERS
        invariant
            workers@.len() == id,
            interval_secs > 0,
            forall|i: int|
                0 <= i < workers@.len() ==> {
                    &&& (#[trigger] workers@[i]).wf()
                    &&& workers@[i]@ == first_relay(
                        RelayConfig {
                            worker_id: (i + 1) as u64,
                            limit,
                            tor_only,
                            relay,
                            interval_secs,
                        },
                    )
                },
    {
        workers.push(
            relay_worker(RelayConfig { worker_id: id + 1, limit, tor_only, relay, interval_secs }),
        );
    }
    workers
}

/// A worker.
pub fn relay_worker(config: RelayConfig) -> (w: RelayWorker)
    requires
        config.worker_id >= 1,
        config.interval_secs > 0,
    ensures
        w.wf(),
        w@ == first_relay(config),
{
    let w = RelayWorker {
        config,
        seen: TxidSet::new(),
        queue: Vec::new(),
        stage: RelayStage::Starting,
    };
    assert(w@ =~= first_relay(config));
    w
}

impl RelayWorker {
    /// The worker has a number, and sends on only if there is something to send.
    pub closed spec fn wf(&self) -> bool {
        &&& self.config.worker_id >= 1
        &&& self.stage == RelayStage::Blasting ==> self.queue@.len() > 0
    }

    /// Seconds from tick to tick.
    pub fn interval_secs(&self) -> (secs: u64)
        ensures
            secs == self@.config.interval_secs,
    {
        self.config.interval_secs
    }

    /// What to do next.
    pub fn action(&self) -> (action: RelayAction)
        requires
            self.wf(),
        ensures
            action@ == relay_action(self@),
    {
        match self.stage {
            RelayStage::Starting => RelayAction::Sleep(self.config.worker_id - 1),
            RelayStage::Waiting => RelayAction::AwaitTick,
            RelayStage::Fetching => RelayAction::Fetch {
                limit: self.config.limit,
                tor_only: self.config.tor_only,
                relay: self.config.relay,
            },
            RelayStage::Blasting => {
                assert(self@.queue[0] == self.queue@[0]@);
                RelayAction::Blast {
                    tx_hex: encode_transaction_hex(&self.queue[0]),
                    tor_only: self.config.tor_only,
                    relay: self.config.relay,
                }
            },
            RelayStage::Stopped => RelayAction::Stop,
        }
    }

    /// Moves on with what came of the action.
    pub fn on_event(&mut self, event: &RelayEvent)
        requires
            old(self).wf(),
        ensures
            final(self).wf(),
            final(self)@ == next_relay(old(self)@, event@),
    {
        match (self.stage, event) {
            (_, RelayEvent::Interrupted) => {
                self.stage = RelayStage::Stopped;
            },
            (RelayStage::Starting, RelayEvent::Slept) => {
                self.stage = RelayStage::Waiting;
            },
            (RelayStage::Waiting, RelayEvent::Ticked) => {
                self.stage = RelayStage::Fetching;
            },
            (RelayStage::Fetching, RelayEvent::Fetched(txs)) => {
                self.enqueue(txs);
            },
            (RelayStage::Fetching, RelayEvent::FetchFailed) => {
                self.stage = RelayStage::Waiting;
            },
            (RelayStage::Blasting, RelayEvent::Blasted) => {
                let ghost before = self.queue@;
                let _ = self.queue.remove(0);
                assert(fetch_peer::tx_views(self.queue@) =~= fetch_peer::tx_views(
                    before,
                ).drop_first());
                if self.queue.len() == 0 {
                    self.stage = RelayStage::Waiting;
                }
            },
            _ => {},
        }
        assert(self@ =~= next_relay(old(self)@, event@));
    }

    /// Takes up what was fetched and was not seen before.
    fn enqueue(&mut self, txs: &Vec<Tx>)
        requires
            old(self).wf(),
            old(self)@.stage is Fetching,
        ensures
            final(self).wf(),
            final(self)@ == with_queue(
                RelayView {
                    seen: old(self)@.seen.union(ids_of(fetch_peer::tx_views(txs@))),
                    ..old(self)@
                },
                fresh(old(self)@.seen, fetch_peer::tx_views(txs@)),
            ),
    {
        let ghost all = fetch_peer::tx_views(txs@);
        let ghost seen = self.seen@;
        let mut queue: Vec<Tx> = Vec::new();
        proof {
            assert(fetch_peer::tx_views(queue@) =~= fresh(seen, all.take(0)));
            assert(self.seen@ =~= seen.union(ids_of(all.take(0))));
        }
        for i in 0..txs.len()
            invariant
                all == fetch_peer::tx_views(txs@),
                seen == old(self)@.seen,
                self@ == (RelayView { seen: self.seen@, ..old(self)@ }),
                self.seen@ == seen.union(ids_of(all.take(i as int))),
                fetch_peer::tx_views(queue@) == fresh(seen, all.take(i as int)),
        {
            let ghost shorter = all.take(i as int);
            let ghost longer = all.take(i + 1);
            let ghost before = queue@;
            let txid = txs[i].txid();
            proof {
                assert(longer.drop_last() =~= shorter);
                assert(longer =~= shorter.push(all[i as int]));
                lemma_fresh_ids(seen, shorter);
                assert forall|id: Txid| gather::holds(longer, id) <==> gather::holds(shorter, id)
                    || id == txid by {
                    gather::lemma_holds_push(shorter, all[i as int], id);
                }
            }
            if self.seen.insert(txid) {
                let tx = txs[i].duplicate();
                queue.push(tx);
                assert(fetch_peer::tx_views(queue@) =~= fetch_peer::tx_views(before).push(
                    all[i as int],
                ));
            }
            assert(self.seen@ =~= seen.union(ids_of(longer)));
        }
        assert(all.take(all.len() as int) =~= all);
        if queue.len() == 0 {
            self.stage = RelayStage::Waiting;
        } else {
            self.stage = RelayStage::Blasting;
        }
        self.queue = queue;
    }
}

/// What is taken up are the ids that were fetched and not seen, each once.
proof fn lemma_fresh_ids(seen: Set<Txid>, txs: Seq<TxView>)
    ensures
        gather::distinct(fresh(seen, txs)),
        forall|id: Txid|
            gather::holds(fresh(seen, txs), id) <==> gather::holds(txs, id) && !seen.contains(id),
    decreases txs.len(),
{
    if txs.len() > 0 {
        let less = txs.drop_last();
        let last = txs.last();
        lemma_fresh_ids(seen, less);
        let before = fresh(seen, less);
        let after = fresh(seen, txs);
        assert(txs =~= less.push(last));
        assert forall|id: Txid|
            gather::holds(after, id) <==> gather::holds(txs, id) && !seen.contains(id) by {
            gather::lemma_holds_push(less, last, id);
            gather::lemma_holds_push(before, last, id);
        }
        assert forall|a: int, b: int| 0 <= a < b < after.len() implies (#[trigger] after[a]).txid
            != (#[trigger] after[b]).txid by {
            if b < before.len() {
                assert(before[a].txid != before[b].txid);
            } else {
                assert(gather::holds(before, before[a].txid));
            }
        }
    }
}

/// A worker after a row of events.
pub open spec fn relay_after(config: RelayConfig, events: Seq<RelayEventView>) -> RelayView
    decreases events.len(),
{
    if events.len() == 0 {
        first_relay(config)
    } else {
        next_relay(relay_after(config, events.drop_last()), events.last())
    }
}

/// The transactions that a worker has sent on, or tried to, over a row of events.
pub open spec fn sent_on(config: RelayConfig, events: Seq<RelayEventView>) -> Seq<TxView>
    decreases events.len(),
{
    if events.len() == 0 {
        Seq::empty()
    } else {
        let before = relay_after(config, events.drop_last());
        if before.stage is Blasting && events.last() is Blasted {
            sent_on(config, events.drop_last()).push(before.queue[0])
        } else {
            sent_on(config, events.drop_last())
        }
    }
}

/// However often a transaction is fetched, a worker sends it on once: no two of those that it has
/// sent on, or has in its queue, have the same id, and those are just the ids that it has seen.
pub proof fn law_relay_sends_nothing_on_twice(config: RelayConfig, events: Seq<RelayEventView>)
    ensures
        gather::distinct(sent_on(config, events) + relay_after(config, events).queue),
        forall|id: Txid|
            relay_after(config, events).seen.contains(id) <==> gather::holds(
                sent_on(config, events) + relay_after(config, events).queue,
                id,
            ),
        relay_after(config, events).stage is Blasting ==> relay_after(config, events).queue.len()
            > 0,
        relay_after(config, events).queue.len() > 0 ==> relay_after(config, events).stage
            is Blasting || relay_after(config, events).stage is Stopped,
        relay_after(config, events).config == config,
    decreases events.len(),
{
    let done = sent_on(config, events);
    let after = relay_after(config, events);
    let all = done + after.queue;
    if events.len() > 0 {
        let less = events.drop_last();
        law_relay_sends_nothing_on_twice(config, less);
        let done_before = sent_on(config, less);
        let before = relay_after(config, less);
        let all_before = done_before + before.queue;
        match (before.stage, events.last()) {
            (RelayStage::Fetching, RelayEventView::Fetched(txs)) => {
                lemma_fresh_ids(before.seen, txs);
                let new = fresh(before.seen, txs);
                assert(all_before =~= done_before);
                assert(all =~= done_before + new);
                lemma_holds_concat(done_before, new);
                assert forall|a: int, b: int| 0 <= a < b < all.len() implies (
                #[trigger] all[a]).txid != (#[trigger] all[b]).txid by {
                    if b < done_before.len() {
                        assert(all[a] == all_before[a] && all[b] == all_before[b]);
                        assert(all_before[a].txid != all_before[b].txid);
                    } else if a < done_before.len() {
                        assert(all[a] == all_before[a]);
                        assert(gather::holds(all_before, all_before[a].txid));
                        assert(before.seen.contains(all_before[a].txid));
                        let other = b - done_before.len();
                        assert(all[b] == new[other]);
                        assert(gather::holds(new, new[other].txid));
                    } else {
                        let (c, d) = (a - done_before.len(), b - done_before.len());
                        assert(all[a] == new[c] && all[b] == new[d]);
                        assert(new[c].txid != new[d].txid);
                    }
                }
            },
            (RelayStage::Blasting, RelayEventView::Blasted) => {
                assert(all =~= all_before);
            },
            _ => {
                assert(all =~= all_before);
            },
        }
    } else {
        assert forall|id: Txid| !gather::holds(all, id) by {}
    }
}

/// What two rows of transactions hold together.
proof fn lemma_holds_concat(a: Seq<TxView>, b: Seq<TxView>)
    ensures
        forall|id: Txid|
            gather::holds(a + b, id) <==> gather::holds(a, id) || gather::holds(b, id),
{
    assert forall|id: Txid|
        gather::holds(a + b, id) <==> gather::holds(a, id) || gather::holds(b, id) by {
        if gather::holds(a, id) {
            let k = choose|k: int| 0 <= k < a.len() && (#[trigger] a[k]).txid == id;
            assert((a + b)[k].txid == id);
        }
        if gather::holds(b, id) {
            let k = choose|k: int| 0 <= k < b.len() && (#[trigger] b[k]).txid == id;
            assert((a + b)[a.len() + k].txid == id);
        }
        if gather::holds(a + b, id) {
            let k = choose|k: int| 0 <= k < (a + b).len() && (#[trigger] (a + b)[k]).txid == id;
            if k < a.len() {
                assert(a[k].txid == id);
            } else {
                assert(b[k - a.len()].txid == id);
            }
        }
    }
}

/// A worker stops at an interrupt, whatever it is doing, and has nothing to do from then on,
/// whatever happens.
pub proof fn law_interrupt_stops_relay(w: RelayView, events: Seq<RelayEventView>)
    ensures
        relay_action(
            events.fold_left(
                next_relay(w, RelayEventView::Interrupted),
                |state: RelayView, event: RelayEventView| next_relay(state, event),
            ),
        ) is Stop,
    decreases events.len(),
{
    let step = |state: RelayView, event: RelayEventView| next_relay(state, event);
    let stopped = next_relay(w, RelayEventView::Interrupted);
    if events.len() > 0 {
        law_interrupt_stops_relay(w, events.drop_last());
    }
}

/// Whether an interrupt is among the events.
pub open spec fn was_interrupted(events: Seq<RelayEventView>) -> bool {
    exists|i: int| 0 <= i < events.len() && #[trigger] events[i] is Interrupted
}

/// A worker stops when it is interrupted and in no other way: neither a fetch that failed nor one
/// that could not be sent on ends it.
pub proof fn law_only_an_interrupt_stops_relay(config: RelayConfig, events: Seq<RelayEventView>)
    ensures
        relay_action(relay_after(config, events)) is Stop <==> was_interrupted(events),
    decreases events.len(),
{
    if events.len() > 0 {
        let less = events.drop_last();
        let last = events.len() - 1;
        law_only_an_interrupt_stops_relay(config, less);
        if was_interrupted(less) {
            let i = choose|i: int| 0 <= i < less.len() && #[trigger] less[i] is Interrupted;
            assert(events[i] is Interrupted);
        }
        if was_interrupted(events) && !(events[last] is Interrupted) {
            let i = choose|i: int| 0 <= i < events.len() && #[trigger] events[i] is Interrupted;
            assert(less[i] is Interrupted);
        }
    }
}

/// A worker sleeps first, for as many seconds as there are workers before it, and neither fetches
/// nor sends on before it has slept.
pub proof fn law_relay_waits_its_turn(config: RelayConfig, events: Seq<RelayEventView>)
    requires
        config.worker_id >= 1,
    ensures
        relay_action(first_relay(config)) == RelayActionView::Sleep((config.worker_id - 1) as u64),
        ({
            let action = relay_action(relay_after(config, events));
            action is Fetch || action is Blast || action is AwaitTick
        }) ==> exists|i: int| 0 <= i < events.len() && #[trigger] events[i] is Slept,
    decreases events.len(),
{
    if events.len() > 0 {
        let less = events.drop_last();
        let last = events.len() - 1;
        law_relay_waits_its_turn(config, less);
        if relay_after(config, less).stage is Starting {
            if !(relay_after(config, events).stage is Starting) && !(relay_after(
                config,
                events,
            ).stage is Stopped) {
                assert(events[last] is Slept);
            }
        } else if !(relay_after(config, less).stage is Stopped) {
            let i = choose|i: int| 0 <= i < less.len() && #[trigger] less[i] is Slept;
            assert(events[i] is Slept);
        }
    }
}

/// The text that a worker sends on spells the transaction that it fetched, whole and nothing more.
pub proof fn law_relayed_text_spells_the_transaction(w: RelayView)
    requires
        w.stage is Blasting,
    ensures
        ({
            let text = utf8::encode_utf8(relay_action(w)->tx_hex);
            hexcode::is_hex(text) && hexcode::hex_bytes(text) == w.queue[0].raw
        }),
{
    hexcode::law_hex_round_trip(w.queue[0].raw);
}

/// What an action and an event of a worker say, told from what they hold.
pub proof fn law_relay_views(
    secs: u64,
    limit: usize,
    tor_only: bool,
    relay: bool,
    tx_hex: String,
    txs: Vec<Tx>,
)
    ensures
        RelayAction::Sleep(secs)@ == RelayActionView::Sleep(secs),
        RelayAction::AwaitTick@ == RelayActionView::AwaitTick,
        (RelayAction::Fetch { limit, tor_only, relay })@ == (RelayActionView::Fetch {
            limit: limit as nat,
            tor_only,
            relay,
        }),
        (RelayAction::Blast { tx_hex, tor_only, relay })@ == (RelayActionView::Blast {
            tx_hex: tx_hex@,
            tor_only,
            relay,
        }),
        RelayAction::Stop@ == RelayActionView::Stop,
        RelayEvent::Slept@ == RelayEventView::Slept,
        RelayEvent::Ticked@ == RelayEventView::Ticked,
        RelayEvent::Interrupted@ == RelayEventView::Interrupted,
        RelayEvent::Fetched(txs)@ == RelayEventView::Fetched(fetch_peer::tx_views(txs@)),
        RelayEvent::FetchFailed@ == RelayEventView::FetchFailed,
        RelayEvent::Blasted@ == RelayEventView::Blasted,
        RELAY_WORKERS == 3,
{
}

/// What a worker does at each stage, told from what it was given: it sleeps a second for each worker
/// before it, waits for ticks, fetches as many as it was told in the mode that it was told, and sends
/// on the whole of the first transaction in its queue in that mode.
pub proof fn law_relay_acts(w: RelayView, config: RelayConfig)
    ensures
        first_relay(config).config == config,
        first_relay(config).seen == Set::<Txid>::empty(),
        first_relay(config).queue.len() == 0,
        first_relay(config).stage is Starting,
        w.stage is Starting ==> relay_action(w) == RelayActionView::Sleep(
            (w.config.worker_id - 1) as u64,
        ),
        w.stage is Waiting ==> relay_action(w) is AwaitTick,
        w.stage is Fetching ==> relay_action(w) == (RelayActionView::Fetch {
            limit: w.config.limit as nat,
            tor_only: w.config.tor_only,
            relay: w.config.relay,
        }),
        w.stage is Blasting ==> relay_action(w) == (RelayActionView::Blast {
            tx_hex: hexcode::hex_text(w.queue[0].raw),
            tor_only: w.config.tor_only,
            relay: w.config.relay,
        }),
        w.stage is Stopped ==> relay_action(w) is Stop,
{
}

/// How a worker answers every event but a fetch that came through: it wakes, ticks, gives up a fetch
/// that failed and goes on in its queue, one transaction for each that was sent on, and an interrupt
/// stops it. Nothing else changes, and what is no answer changes nothing.
pub proof fn law_relay_answers(w: RelayView, event: RelayEventView)
    requires
        !(w.stage is Fetching && event is Fetched),
        w.stage is Blasting ==> w.queue.len() > 0,
    ensures
        ({
            let n = next_relay(w, event);
            &&& n.config == w.config && n.seen == w.seen
            &&& n.queue == if w.stage is Blasting && event is Blasted {
                w.queue.drop_first()
            } else {
                w.queue
            }
            &&& n.stage == if event is Interrupted {
                RelayStage::Stopped
            } else if w.stage is Starting && event is Slept {
                RelayStage::Waiting
            } else if w.stage is Waiting && event is Ticked {
                RelayStage::Fetching
            } else if w.stage is Fetching && event is FetchFailed {
                RelayStage::Waiting
            } else if w.stage is Blasting && event is Blasted && w.queue.len() == 1 {
                RelayStage::Waiting
            } else {
                w.stage
            }
        }),
{
}

/// Whether a transaction is new: its id was neither seen before nor came earlier in the row.
pub open spec fn is_new(seen: Set<Txid>, txs: Seq<TxView>, p: int) -> bool {
    !seen.contains(txs[p].txid) && forall|q: int|
        0 <= q < p ==> (#[trigger] txs[q]).txid != txs[p].txid
}

/// A worker takes up everything new that it fetched, be it much or little: its queue is then the row
/// of the new transactions in the order in which they were fetched, each once; it has seen all that
/// was fetched, besides what it had seen; and it goes on to send them on, or waits if there are none.
pub proof fn law_relay_takes_up_all_that_is_new(w: RelayView, txs: Seq<TxView>)
    requires
        w.stage is Fetching,
    ensures
        ({
            let n = next_relay(w, RelayEventView::Fetched(txs));
            &&& n.config == w.config
            &&& forall|id: Txid|
                #![trigger n.seen.contains(id)]
                n.seen.contains(id) <==> w.seen.contains(id) || exists|i: int|
                    0 <= i < txs.len() && (#[trigger] txs[i]).txid == id
            &&& exists|at: Seq<int>|
                {
                    &&& #[trigger] at.len() == n.queue.len()
                    &&& forall|k: int|
                        0 <= k < at.len() ==> 0 <= #[trigger] at[k] < txs.len() && n.queue[k]
                            == txs[at[k]]
                    &&& forall|j: int, k: int|
                        0 <= j < k < at.len() ==> #[trigger] at[j] < #[trigger] at[k]
                    &&& forall|p: int|
                        0 <= p < txs.len() ==> (#[trigger] at.contains(p) <==> is_new(
                            w.seen,
                            txs,
                            p,
                        ))
                }
            &&& n.queue.len() > 0 ==> n.stage == RelayStage::Blasting
            &&& n.queue.len() == 0 ==> n.stage == RelayStage::Waiting
        }),
{
    let n = next_relay(w, RelayEventView::Fetched(txs));
    assert forall|id: Txid|
        #![trigger n.seen.contains(id)]
        n.seen.contains(id) <==> w.seen.contains(id) || exists|i: int|
            0 <= i < txs.len() && (#[trigger] txs[i]).txid == id by {
        assert(ids_of(txs).contains(id) <==> gather::holds(txs, id));
    }
    let at = lemma_fresh_places(w.seen, txs);
    assert(at.len() == n.queue.len());
}

/// The places from which the new transactions come.
proof fn lemma_fresh_places(seen: Set<Txid>, txs: Seq<TxView>) -> (at: Seq<int>)
    ensures
        at.len() == fresh(seen, txs).len(),
        forall|k: int|
            0 <= k < at.len() ==> 0 <= #[trigger] at[k] < txs.len() && fresh(seen, txs)[k]
                == txs[at[k]],
        forall|j: int, k: int| 0 <= j < k < at.len() ==> #[trigger] at[j] < #[trigger] at[k],
        forall|p: int|
            0 <= p < txs.len() ==> (#[trigger] at.contains(p) <==> is_new(seen, txs, p)),
    decreases txs.len(),
{
    if txs.len() == 0 {
        Seq::empty()
    } else {
        let less = txs.drop_last();
        let last = txs.len() - 1;
        let at = lemma_fresh_places(seen, less);
        lemma_fresh_ids(seen, less);
        assert forall|p: int| 0 <= p < last implies is_new(seen, less, p) == is_new(seen, txs, p) by {
            assert(forall|q: int| 0 <= q <= p ==> less[q] == #[trigger] txs[q]);
            if is_new(seen, less, p) {
                assert forall|q: int| 0 <= q < p implies (#[trigger] txs[q]).txid != txs[p].txid by {
                    assert(less[q].txid != less[p].txid);
                }
            }
            if is_new(seen, txs, p) {
                assert forall|q: int| 0 <= q < p implies (#[trigger] less[q]).txid
                    != less[p].txid by {
                    assert(txs[q].txid != txs[p].txid);
                }
            }
        }
        let id = txs[last].txid;
        assert(gather::holds(less, id) <==> !(forall|q: int|
            0 <= q < last ==> (#[trigger] txs[q]).txid != id)) by {
            if gather::holds(less, id) {
                let q = choose|q: int| 0 <= q < less.len() && (#[trigger] less[q]).txid == id;
                assert(txs[q].txid == id);
            }
            if !(forall|q: int| 0 <= q < last ==> (#[trigger] txs[q]).txid != id) {
                let q = choose|q: int| 0 <= q < last && (#[trigger] txs[q]).txid == id;
                assert(less[q].txid == id);
            }
        }
        let before = fresh(seen, less);
        if seen.contains(id) || gather::holds(before, id) {
            assert(!at.contains(last as int));
            at
        } else {
            let more = at.push(last as int);
            assert forall|p: int| 0 <= p < txs.len() implies (#[trigger] more.contains(p) <==> is_new(
                seen,
                txs,
                p,
            )) by {
                seqs::lemma_push_contains(at, last as int, p);
                if p == last {
                    assert(is_new(seen, txs, p));
                } else {
                    assert(at.contains(p) <==> is_new(seen, less, p));
                }
            }
            more
        }
    }
}

/// As many events as there are that say a transaction was sent on.
pub open spec fn all_blasted(n: nat) -> Seq<RelayEventView> {
    Seq::new(n, |i: int| RelayEventView::Blasted)
}

/// A worker that is left alone sends on all that is in its queue, in order, and then waits for the
/// next tick.
pub proof fn law_relay_sends_on_its_queue(
    config: RelayConfig,
    events: Seq<RelayEventView>,
    n: nat,
)
    requires
        relay_after(config, events).stage is Blasting,
        n <= relay_after(config, events).queue.len(),
    ensures
        ({
            let w = relay_after(config, events);
            let later = relay_after(config, events + all_blasted(n));
            &&& sent_on(config, events + all_blasted(n)) == sent_on(config, events) + w.queue.take(
                n as int,
            )
            &&& later == (RelayView { queue: w.queue.skip(n as int), stage: later.stage, ..w })
            &&& n < w.queue.len() ==> later.stage == RelayStage::Blasting
            &&& n == w.queue.len() && n > 0 ==> later.stage == RelayStage::Waiting
        }),
    decreases n,
{
    let w = relay_after(config, events);
    let row = events + all_blasted(n);
    if n == 0 {
        law_relay_sends_nothing_on_twice(config, events);
        assert(row =~= events);
        assert(sent_on(config, events) + w.queue.take(0) =~= sent_on(config, events));
        assert(w.queue.skip(0) =~= w.queue);
    } else {
        let m = (n - 1) as nat;
        law_relay_sends_on_its_queue(config, events, m);
        assert(row.drop_last() =~= events + all_blasted(m));
        assert(row.last() is Blasted);
        let before = relay_after(config, events + all_blasted(m));
        assert(before.stage is Blasting);
        assert(before.queue[0] == w.queue[m as int]);
        assert(sent_on(config, row) =~= sent_on(config, events) + w.queue.take(n as int));
        assert(before.queue.drop_first() =~= w.queue.skip(n as int));
    }
}

/// Everything that a worker ever fetched is sent on or waits in its queue: whenever transactions were
/// fetched, each of their ids is from then on among those that it has sent on or is about to, whatever
/// happens after.
pub proof fn law_relay_loses_nothing(
    config: RelayConfig,
    events: Seq<RelayEventView>,
    when: int,
    txs: Seq<TxView>,
    place: int,
)
    requires
        0 <= when < events.len(),
        relay_action(relay_after(config, events.take(when))) is Fetch,
        events[when] == RelayEventView::Fetched(txs),
        0 <= place < txs.len(),
    ensures
        exists|i: int|
            0 <= i < (sent_on(config, events) + relay_after(config, events).queue).len() && (
            #[trigger] (sent_on(config, events) + relay_after(config, events).queue)[i]).txid
                == txs[place].txid,
    decreases events.len(),
{
    law_relay_sends_nothing_on_twice(config, events);
    lemma_seen_for_good(config, events, when, txs, place);
    assert(gather::holds(
        sent_on(config, events) + relay_after(config, events).queue,
        txs[place].txid,
    ));
}

/// What was fetched has been seen from then on.
proof fn lemma_seen_for_good(
    config: RelayConfig,
    events: Seq<RelayEventView>,
    when: int,
    txs: Seq<TxView>,
    place: int,
)
    requires
        0 <= when < events.len(),
        relay_after(config, events.take(when)).stage is Fetching,
        events[when] == RelayEventView::Fetched(txs),
        0 <= place < txs.len(),
    ensures
        relay_after(config, events).seen.contains(txs[place].txid),
    decreases events.len(),
{
    let less = events.drop_last();
    if when == events.len() - 1 {
        assert(events.take(when) =~= less);
        assert(gather::holds(txs, txs[place].txid));
    } else {
        assert(less.take(when) =~= events.take(when));
        lemma_seen_for_good(config, less, when, txs, place);
    }
}

} // verus!
