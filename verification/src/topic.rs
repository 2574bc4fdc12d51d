//! The gossip topic on which transactions are passed around.
use crate::hexcode;
use crate::onion;
use crate::seqs;
use crate::text;
use crate::text::contains_text;
use crate::tx;
use crate::tx::{decode_transaction_bytes, decode_transaction_hex, show_txid, TxError, Txid};
use crate::txid_set::TxidSet;
use vstd::prelude::*;
use vstd::string::*;
use vstd::utf8;

verus! {

/// The name of the topic.
pub const BITCOIN_PIGEON_TOPIC: &'static str = "bitcoin-pigeon";

/// Where a node listens for others.
pub const LISTEN_ADDRESS: &'static str = "/ip4/0.0.0.0/tcp/0";

/// How many transactions may wait to be published.
pub const PUBLISH_QUEUE_LEN: usize = 64;

/// How many ids of the local memory pool are shown.
pub const LOCAL_MEMPOOL_LIMIT: usize = 5;

/// How often a publication is tried.
pub const MAX_ATTEMPTS: u64 = 30;

/// What a message is known by.
#[derive(Clone, Copy, Debug, PartialEq, Eq)]
pub enum Identity {
    /// The id of the transaction in it.
    Transaction(Txid),
    /// The digest of a message without a transaction.
    Digest([u8; 32]),
}

/// What an [`Identity`] says.
pub enum IdentityView {
    Transaction(Txid),
    Digest(Seq<u8>),
}

impl View for Identity {
    type V = IdentityView;

    open spec fn view(&self) -> IdentityView {
        match self {
            Identity::Transaction(txid) => IdentityView::Transaction(*txid),
            Identity::Digest(digest) => IdentityView::Digest(digest@),
        }
    }
}

/// What a message is known by.
pub open spec fn identity(data: Seq<u8>) -> IdentityView {
    match tx::leading_transaction(data) {
        Some(raw) => IdentityView::Transaction(tx::computed_txid(raw)),
        None => IdentityView::Digest(onion::sha3_256_digest(data)),
    }
}

/// The text of a message's id: that of the transaction's id, or the topic and the digest.
pub open spec fn identity_text(who: IdentityView, topic_name: Seq<char>) -> Seq<char> {
    match who {
        IdentityView::Transaction(txid) => tx::txid_text(txid),
        IdentityView::Digest(digest) => topic_name + ":"@ + hexcode::hex_text(digest),
    }
}

/// Finds what a message is known by.
pub fn identify(data: &[u8]) -> (who: Identity)
    ensures
        who@ == identity(data@),
{
    match decode_transaction_bytes(data) {
        Ok(tx) => Identity::Transaction(tx.txid()),
        Err(_) => Identity::Digest(onion::sha3_256(data)),
    }
}

/// The text of a message's id.
pub fn show_identity(who: &Identity, topic_name: &str) -> (text: String)
    ensures
        text@ == identity_text(who@, topic_name@),
{
    match who {
        Identity::Transaction(txid) => show_txid(txid),
        Identity::Digest(digest) => {
            let mut text = topic_name.to_owned();
            text.append(":");
            text.append(hexcode::hex_encode(digest.as_slice()).as_str());
            text
        },
    }
}

/// The id of a message on a topic.
pub fn tx_message_id(data: &[u8], topic_name: &str) -> (text: String)
    ensures
        text@ == identity_text(identity(data@), topic_name@),
{
    let who = identify(data);
    show_identity(&who, topic_name)
}

/// How a message is shown: by the id of the transaction in it, or else in full.
pub open spec fn label_text(data: Seq<u8>) -> Seq<char> {
    match tx::leading_transaction(data) {
        Some(raw) => tx::txid_text(tx::computed_txid(raw)),
        None => hexcode::hex_text(data),
    }
}

/// How a message is shown.
pub fn message_label(data: &[u8]) -> (text: String)
    ensures
        text@ == label_text(data@),
{
    match decode_transaction_bytes(data) {
        Ok(tx) => show_txid(&tx.txid()),
        Err(_) => hexcode::hex_encode(data),
    }
}

/// A digit is no colon.
proof fn lemma_no_colon(bytes: Seq<u8>, i: int)
    requires
        0 <= i < 2 * bytes.len(),
    ensures
        hexcode::hex_text(bytes)[i] != ':',
{
    assert(0 <= bytes[i / 2] / 16 < 16);
    assert(0 <= bytes[i / 2] % 16 < 16);
}

/// A message with a transaction and one without never have the same id.
pub proof fn law_ids_of_the_two_sorts_differ(txid: Txid, digest: Seq<u8>, topic_name: Seq<char>)
    ensures
        identity_text(IdentityView::Transaction(txid), topic_name) != identity_text(
            IdentityView::Digest(digest),
            topic_name,
        ),
{
    let a = identity_text(IdentityView::Transaction(txid), topic_name);
    let b = identity_text(IdentityView::Digest(digest), topic_name);
    let i = topic_name.len() as int;
    reveal_strlit(":");
    assert(b[i] == ':');
    if a == b {
        assert(i < a.len());
        assert(a.len() == 2 * txid.bytes@.reverse().len());
        lemma_no_colon(txid.bytes@.reverse(), i);
    }
}

/// Two messages have the same id only if they hold the same transaction, or neither holds one and
/// their digests are the same.
pub proof fn law_ids_tell_messages_apart(a: IdentityView, b: IdentityView, topic_name: Seq<char>)
    ensures
        identity_text(a, topic_name) == identity_text(b, topic_name) ==> a == b,
{
    let (s, t) = (identity_text(a, topic_name), identity_text(b, topic_name));
    if s == t {
        match (a, b) {
            (IdentityView::Transaction(x), IdentityView::Transaction(y)) => {
                tx::law_txid_text_is_unique(x, y);
            },
            (IdentityView::Digest(x), IdentityView::Digest(y)) => {
                let skip = (topic_name + ":"@).len() as int;
                assert(s.skip(skip) =~= hexcode::hex_text(x));
                assert(t.skip(skip) =~= hexcode::hex_text(y));
                hexcode::law_hex_round_trip(x);
                hexcode::law_hex_round_trip(y);
            },
            (IdentityView::Transaction(x), IdentityView::Digest(y)) => {
                law_ids_of_the_two_sorts_differ(x, y, topic_name);
            },
            (IdentityView::Digest(x), IdentityView::Transaction(y)) => {
                law_ids_of_the_two_sorts_differ(y, x, topic_name);
            },
        }
    }
}

/// Why a message or a publication came to nothing.
#[derive(Clone, Copy, Debug, PartialEq, Eq, Structural)]
pub enum TopicError {
    /// The local memory pool could not be listed.
    Mempool,
    /// The transaction could not be sent on.
    Blast,
}

/// What is to be done with the transactions that come.
#[derive(Clone, Copy, Debug, PartialEq, Eq, Structural)]
pub enum Purpose {
    /// Send them on.
    Handle,
    /// Only watch: list the local memory pool, report the transaction, or both.
    Observe { local: bool, remote: bool },
}

/// How far a message is dealt with.
#[derive(Clone, Copy, Debug, PartialEq, Eq)]
pub enum TaskStage {
    /// Listing the local memory pool.
    Listing,
    /// Sending the transaction on.
    Blasting,
    /// Reporting the transaction.
    Reporting,
    /// Over, or failed.
    Done(Result<(), TopicError>),
}

/// What a [`TopicTask`] says.
pub struct TaskView {
    pub txid: Txid,
    pub tx_hex: Seq<char>,
    pub tor_only: bool,
    pub purpose: Purpose,
    pub stage: TaskStage,
}

/// What a message with a transaction calls for.
#[derive(Debug)]
pub struct TopicTask {
    txid: Txid,
    tx_hex: String,
    tor_only: bool,
    purpose: Purpose,
    stage: TaskStage,
}

impl View for TopicTask {
    type V = TaskView;

    closed spec fn view(&self) -> TaskView {
        TaskView {
            txid: self.txid,
            tx_hex: self.tx_hex@,
            tor_only: self.tor_only,
            purpose: self.purpose,
            stage: self.stage,
        }
    }
}

/// What to do next about a message.
#[derive(Debug)]
pub enum TopicAction {
    /// List the local memory pool, at most so many ids.
    ListMempool { limit: usize },
    /// Send a transaction to the peers.
    Blast { tx_hex: String, tor_only: bool, relay: bool },
    /// Report that a transaction was seen.
    Report { txid: String, tor_only: bool },
    /// Nothing.
    Finish,
}

/// What a [`TopicAction`] says.
pub enum TopicActionView {
    ListMempool { limit: nat },
    Blast { tx_hex: Seq<char>, tor_only: bool, relay: bool },
    Report { txid: Seq<char>, tor_only: bool },
    Finish,
}

impl View for TopicAction {
    type V = TopicActionView;

    open spec fn view(&self) -> TopicActionView {
        match self {
            TopicAction::ListMempool { limit } => TopicActionView::ListMempool {
                limit: *limit as nat,
            },
            TopicAction::Blast { tx_hex, tor_only, relay } => TopicActionView::Blast {
                tx_hex: tx_hex@,
                tor_only: *tor_only,
                relay: *relay,
            },
            TopicAction::Report { txid, tor_only } => TopicActionView::Report {
                txid: txid@,
                tor_only: *tor_only,
            },
            TopicAction::Finish => TopicActionView::Finish,
        }
    }
}

/// What came of an action.
#[derive(Clone, Copy, Debug, PartialEq, Eq, Structural)]
pub enum TopicEvent {
    /// It was done.
    Done,
    /// It failed.
    Failed,
}

/// Where dealing with a transaction begins.
pub open spec fn first_task_stage(purpose: Purpose, known: bool) -> TaskStage {
    if known {
        TaskStage::Done(Ok(()))
    } else {
        match purpose {
            Purpose::Handle => TaskStage::Listing,
            Purpose::Observe { local, remote } => if local {
                TaskStage::Listing
            } else {
                after_listing(purpose)
            },
        }
    }
}

/// What comes after listing the local memory pool.
pub open spec fn after_listing(purpose: Purpose) -> TaskStage {
    match purpose {
        Purpose::Handle => TaskStage::Blasting,
        Purpose::Observe { remote, .. } => if remote {
            TaskStage::Reporting
        } else {
            TaskStage::Done(Ok(()))
        },
    }
}

/// What comes after an event.
pub open spec fn next_task_stage(
    purpose: Purpose,
    stage: TaskStage,
    event: TopicEvent,
) -> TaskStage {
    match (stage, event) {
        (TaskStage::Listing, TopicEvent::Done) => after_listing(purpose),
        (TaskStage::Listing, TopicEvent::Failed) => TaskStage::Done(Err(TopicError::Mempool)),
        (TaskStage::Blasting, TopicEvent::Done) => TaskStage::Done(Ok(())),
        (TaskStage::Blasting, TopicEvent::Failed) => TaskStage::Done(Err(TopicError::Blast)),
        (TaskStage::Reporting, _) => TaskStage::Done(Ok(())),
        (TaskStage::Done(_), _) => stage,
    }
}

/// The action that is next.
pub open spec fn task_action(task: TaskView) -> TopicActionView {
    match task.stage {
        TaskStage::Listing => TopicActionView::ListMempool { limit: LOCAL_MEMPOOL_LIMIT as nat },
        TaskStage::Blasting => TopicActionView::Blast {
            tx_hex: task.tx_hex,
            tor_only: task.tor_only,
            relay: true,
        },
        TaskStage::Reporting => TopicActionView::Report {
            txid: tx::txid_text(task.txid),
            tor_only: task.tor_only,
        },
        TaskStage::Done(_) => TopicActionView::Finish,
    }
}

/// What the message `data` with the transaction `txid` calls for, where `known` are the
/// transactions that came before.
pub open spec fn task_of(
    txid: Txid,
    data: Seq<u8>,
    tor_only: bool,
    purpose: Purpose,
    known: Set<Txid>,
) -> TaskView {
    TaskView {
        txid,
        tx_hex: hexcode::hex_text(data),
        tor_only,
        purpose,
        stage: first_task_stage(purpose, known.contains(txid)),
    }
}

/// Starts to deal with the message `data` with the transaction `txid`.
pub fn start_task(
    txid: Txid,
    data: &[u8],
    tor_only: bool,
    purpose: Purpose,
    seen_txs: &mut TxidSet,
) -> (task: TopicTask)
    ensures
        final(seen_txs)@ == old(seen_txs)@.insert(txid),
        task@ == task_of(txid, data@, tor_only, purpose, old(seen_txs)@),
{
    let stage = if !seen_txs.insert(txid) {
        TaskStage::Done(Ok(()))
    } else {
        match purpose {
            Purpose::Handle => TaskStage::Listing,
            Purpose::Observe { local, .. } => if local {
                TaskStage::Listing
            } else {
                listing_done(purpose)
            },
        }
    };
    TopicTask { txid, tx_hex: hexcode::hex_encode(data), tor_only, purpose, stage }
}

/// What comes after listing the local memory pool.
fn listing_done(purpose: Purpose) -> (stage: TaskStage)
    ensures
        stage == after_listing(purpose),
{
    match purpose {
        Purpose::Handle => TaskStage::Blasting,
        Purpose::Observe { remote, .. } => if remote {
            TaskStage::Reporting
        } else {
            TaskStage::Done(Ok(()))
        },
    }
}

/// Starts to deal with a message: with the transaction that it starts with, unless it came before.
/// A message without a transaction is refused.
fn take_topic_tx(data: &[u8], tor_only: bool, purpose: Purpose, seen_txs: &mut TxidSet) -> (r:
    Result<TopicTask, TxError>)
    ensures
        match r {
            Ok(task) => tx::leading_transaction(data@) matches Some(raw) && {
                let txid = tx::computed_txid(raw);
                &&& final(seen_txs)@ == old(seen_txs)@.insert(txid)
                &&& task@ == task_of(txid, data@, tor_only, purpose, old(seen_txs)@)
            },
            Err(error) => {
                &&& error == TxError::Decode
                &&& tx::leading_transaction(data@) is None
                &&& final(seen_txs)@ == old(seen_txs)@
            },
        },
{
    match decode_transaction_bytes(data) {
        Ok(tx) => Ok(start_task(tx.txid(), data, tor_only, purpose, seen_txs)),
        Err(error) => Err(error),
    }
}

/// Starts to deal with a message whose transaction is to be sent on.
pub fn handle_topic_tx(data: &[u8], tor_only: bool, seen_txs: &mut TxidSet) -> (r: Result<
    TopicTask,
    TxError,
>)
    ensures
        match r {
            Ok(task) => tx::leading_transaction(data@) matches Some(raw) && {
                let txid = tx::computed_txid(raw);
                &&& final(seen_txs)@ == old(seen_txs)@.insert(txid)
                &&& task@ == task_of(txid, data@, tor_only, Purpose::Handle, old(seen_txs)@)
            },
            Err(error) => {
                &&& error == TxError::Decode
                &&& tx::leading_transaction(data@) is None
                &&& final(seen_txs)@ == old(seen_txs)@
            },
        },
{
    take_topic_tx(data, tor_only, Purpose::Handle, seen_txs)
}

/// Starts to deal with a message that is only watched.
pub fn observe_topic_tx(
    data: &[u8],
    tor_only: bool,
    local: bool,
    remote: bool,
    seen_txs: &mut TxidSet,
) -> (r: Result<TopicTask, TxError>)
    ensures
        match r {
            Ok(task) => tx::leading_transaction(data@) matches Some(raw) && {
                let txid = tx::computed_txid(raw);
                &&& final(seen_txs)@ == old(seen_txs)@.insert(txid)
                &&& task@ == task_of(
                    txid,
                    data@,
                    tor_only,
                    Purpose::Observe { local, remote },
                    old(seen_txs)@,
                )
            },
            Err(error) => {
                &&& error == TxError::Decode
                &&& tx::leading_transaction(data@) is None
                &&& final(seen_txs)@ == old(seen_txs)@
            },
        },
{
    take_topic_tx(data, tor_only, Purpose::Observe { local, remote }, seen_txs)
}

impl TopicTask {
    /// What to do next.
    pub fn action(&self) -> (action: TopicAction)
        ensures
            action@ == task_action(self@),
    {
        match self.stage {
            TaskStage::Listing => TopicAction::ListMempool { limit: LOCAL_MEMPOOL_LIMIT },
            TaskStage::Blasting => TopicAction::Blast {
                tx_hex: self.tx_hex.clone(),
                tor_only: self.tor_only,
                relay: true,
            },
            TaskStage::Reporting => TopicAction::Report {
                txid: show_txid(&self.txid),
                tor_only: self.tor_only,
            },
            TaskStage::Done(_) => TopicAction::Finish,
        }
    }

    /// Moves on with what came of the action.
    pub fn on_event(&mut self, event: TopicEvent)
        ensures
            final(self)@ == (TaskView {
                stage: next_task_stage(old(self)@.purpose, old(self)@.stage, event),
                ..old(self)@
            }),
    {
        let next = match (self.stage, event) {
            (TaskStage::Listing, TopicEvent::Done) => listing_done(self.purpose),
            (TaskStage::Listing, TopicEvent::Failed) => TaskStage::Done(Err(TopicError::Mempool)),
            (TaskStage::Blasting, TopicEvent::Done) => TaskStage::Done(Ok(())),
            (TaskStage::Blasting, TopicEvent::Failed) => TaskStage::Done(Err(TopicError::Blast)),
            (TaskStage::Reporting, _) => TaskStage::Done(Ok(())),
            (TaskStage::Done(result), _) => TaskStage::Done(result),
        };
        self.stage = next;
    }

    /// What came of it; `None` while it is not over.
    pub fn outcome(&self) -> (r: Option<Result<(), TopicError>>)
        ensures
            r == match self@.stage {
                TaskStage::Done(result) => Some(result),
                _ => None,
            },
    {
        match self.stage {
            TaskStage::Done(result) => Some(result),
            _ => None,
        }
    }
}

/// The transactions that are dealt with when messages with `ids` come in turn, where `known` came
/// before.
pub open spec fn dealt_with(purpose: Purpose, known: Set<Txid>, ids: Seq<Txid>) -> Seq<Txid>
    decreases ids.len(),
{
    if ids.len() == 0 {
        Seq::empty()
    } else {
        let before = dealt_with(purpose, known, ids.drop_last());
        let seen = known.union(ids.drop_last().to_set());
        if first_task_stage(purpose, seen.contains(ids.last())) is Done {
            before
        } else {
            before.push(ids.last())
        }
    }
}

/// However often a transaction comes, it is dealt with once, and not at all where it came before.
pub proof fn law_topic_tx_is_dealt_with_once(purpose: Purpose, known: Set<Txid>, ids: Seq<Txid>)
    ensures
        dealt_with(purpose, known, ids).no_duplicates(),
        forall|id: Txid|
            dealt_with(purpose, known, ids).contains(id) ==> ids.contains(id) && !known.contains(
                id,
            ),
        purpose is Handle ==> forall|id: Txid|
            ids.contains(id) && !known.contains(id) ==> dealt_with(purpose, known, ids).contains(
                id,
            ),
    decreases ids.len(),
{
    if ids.len() > 0 {
        let less = ids.drop_last();
        let last = ids.last();
        law_topic_tx_is_dealt_with_once(purpose, known, less);
        let before = dealt_with(purpose, known, less);
        let after = dealt_with(purpose, known, ids);
        assert(ids =~= less.push(last));
        assert forall|id: Txid|
            #![trigger after.contains(id)]
            #![trigger ids.contains(id)]
            true implies {
            &&& ids.contains(id) <==> less.contains(id) || id == last
            &&& before.push(last).contains(id) <==> before.contains(id) || id == last
        } by {
            seqs::lemma_push_contains(less, last, id);
            seqs::lemma_push_contains(before, last, id);
        }
    }
}

/// One who only watches never sends a transaction on.
pub proof fn law_watching_sends_nothing(
    task: TaskView,
    local: bool,
    remote: bool,
    known: bool,
    event: TopicEvent,
)
    requires
        task.purpose == (Purpose::Observe { local, remote }),
    ensures
        !(first_task_stage(task.purpose, known) is Blasting),
        !(task.stage is Blasting) ==> !(task_action(
            TaskView { stage: next_task_stage(task.purpose, task.stage, event), ..task },
        ) is Blast),
{
}

/// What is sent on spells the message that came, byte for byte.
pub proof fn law_topic_text_spells_the_message(
    txid: Txid,
    data: Seq<u8>,
    tor_only: bool,
    purpose: Purpose,
    known: Set<Txid>,
)
    ensures
        hexcode::is_hex(utf8::encode_utf8(task_of(txid, data, tor_only, purpose, known).tx_hex)),
        hexcode::hex_bytes(
            utf8::encode_utf8(task_of(txid, data, tor_only, purpose, known).tx_hex),
        ) == data,
{
    hexcode::law_hex_round_trip(data);
}

/// How far a publication has come.
#[derive(Clone, Copy, Debug, PartialEq, Eq)]
pub enum PublishStage {
    /// Publishing, for the time given, from 1.
    Trying(u64),
    /// Pausing after the try given.
    Pausing(u64),
    /// Over: whether it was published, or failed.
    Done(Result<bool, ()>),
}

/// What to do next to publish.
#[derive(Clone, Copy, Debug, PartialEq, Eq, Structural)]
pub enum PublishAction {
    /// Publish the bytes on the topic.
    Publish,
    /// Sleep for so many seconds.
    Sleep(u64),
    /// Nothing.
    Finish,
}

/// What came of it.
#[derive(Debug)]
pub enum PublishEvent {
    Published,
    /// It was refused, with this text.
    Refused(String),
    Slept,
}

/// What a [`PublishEvent`] says.
pub enum PublishEventView {
    Published,
    Refused(Seq<char>),
    Slept,
}

impl View for PublishEvent {
    type V = PublishEventView;

    open spec fn view(&self) -> PublishEventView {
        match self {
            PublishEvent::Published => PublishEventView::Published,
            PublishEvent::Refused(text) => PublishEventView::Refused(text@),
            PublishEvent::Slept => PublishEventView::Slept,
        }
    }
}

/// Whether a refusal says that there is nobody to publish to yet.
pub open spec fn lacks_peers(refusal: Seq<char>) -> bool {
    text::occurs(refusal, "InsufficientPeers"@)
}

/// The action that is next.
pub open spec fn publish_action(stage: PublishStage) -> PublishAction {
    match stage {
        PublishStage::Trying(_) => PublishAction::Publish,
        PublishStage::Pausing(_) => PublishAction::Sleep(1),
        PublishStage::Done(_) => PublishAction::Finish,
    }
}

/// The stage after an event: where there is nobody yet, another try is made after a pause, up to
/// the last one; any other refusal is final.
pub open spec fn next_publish(stage: PublishStage, event: PublishEventView) -> PublishStage {
    match (stage, event) {
        (PublishStage::Trying(_), PublishEventView::Published) => PublishStage::Done(Ok(true)),
        (PublishStage::Trying(attempt), PublishEventView::Refused(refusal)) => if lacks_peers(
            refusal,
        ) {
            PublishStage::Pausing(attempt)
        } else {
            PublishStage::Done(Err(()))
        },
        (PublishStage::Pausing(attempt), PublishEventView::Slept) => if attempt >= MAX_ATTEMPTS {
            PublishStage::Done(Ok(false))
        } else {
            PublishStage::Trying((attempt + 1) as u64)
        },
        _ => stage,
    }
}

/// The stage after an event.
pub fn publish_with_retry(stage: PublishStage, event: &PublishEvent) -> (next: PublishStage)
    ensures
        next == next_publish(stage, event@),
{
    match (stage, event) {
        (PublishStage::Trying(_), PublishEvent::Published) => PublishStage::Done(Ok(true)),
        (PublishStage::Trying(attempt), PublishEvent::Refused(refusal)) => if contains_text(
            refusal.as_str(),
            "InsufficientPeers",
        ) {
            PublishStage::Pausing(attempt)
        } else {
            PublishStage::Done(Err(()))
        },
        (PublishStage::Pausing(attempt), PublishEvent::Slept) => if attempt >= MAX_ATTEMPTS {
            PublishStage::Done(Ok(false))
        } else {
            PublishStage::Trying(attempt + 1)
        },
        _ => stage,
    }
}

/// A publication of a transaction.
#[derive(Debug)]
pub struct Publication {
    txid: Txid,
    raw: Vec<u8>,
    stage: PublishStage,
}

/// What a [`Publication`] says.
pub struct PublicationView {
    pub txid: Txid,
    /// The bytes to publish.
    pub raw: Seq<u8>,
    pub stage: PublishStage,
}

impl View for Publication {
    type V = PublicationView;

    closed spec fn view(&self) -> PublicationView {
        PublicationView { txid: self.txid, raw: self.raw@, stage: self.stage }
    }
}

/// What comes of the wish to publish what `tx_hex` spells: the bytes are published as they are if
/// they start with a transaction.
pub open spec fn publishes(tx_hex: Seq<char>, r: Result<PublicationView, TxError>) -> bool {
    let spelled = utf8::encode_utf8(tx_hex);
    match r {
        Ok(p) => {
            &&& hexcode::is_hex(spelled)
            &&& p.raw == hexcode::hex_bytes(spelled)
            &&& tx::leading_transaction(p.raw) matches Some(raw)
            &&& p.txid == tx::computed_txid(raw)
            &&& p.stage == PublishStage::Trying(1)
        },
        Err(TxError::Hex(error)) => hexcode::hex_refused(spelled, error),
        Err(TxError::Decode) => {
            &&& hexcode::is_hex(spelled)
            &&& tx::leading_transaction(hexcode::hex_bytes(spelled)) is None
        },
    }
}

/// Starts to publish what `tx_hex` spells, if that starts with a transaction.
pub fn publish_topic_tx(tx_hex: &str) -> (r: Result<Publication, TxError>)
    ensures
        publishes(
            tx_hex@,
            match r {
                Ok(p) => Ok(p@),
                Err(error) => Err(error),
            },
        ),
{
    match decode_transaction_hex(tx_hex) {
        Ok(tx) => match hexcode::hex_decode(tx_hex) {
            Ok(raw) => Ok(Publication { txid: tx.txid(), raw, stage: PublishStage::Trying(1) }),
            Err(error) => Err(TxError::Hex(error)),
        },
        Err(error) => Err(error),
    }
}

impl Publication {
    /// The id of the transaction.
    pub fn txid(&self) -> (txid: Txid)
        ensures
            txid == self@.txid,
    {
        self.txid
    }

    /// The bytes to publish, and to deal with afterwards as if they had come on the topic.
    pub fn raw(&self) -> (raw: &[u8])
        ensures
            raw@ == self@.raw,
    {
        self.raw.as_slice()
    }

    /// What to do next.
    pub fn action(&self) -> (action: PublishAction)
        ensures
            action == publish_action(self@.stage),
    {
        match self.stage {
            PublishStage::Trying(_) => PublishAction::Publish,
            PublishStage::Pausing(_) => PublishAction::Sleep(1),
            PublishStage::Done(_) => PublishAction::Finish,
        }
    }

    /// Moves on with what came of the action.
    pub fn on_event(&mut self, event: &PublishEvent)
        ensures
            final(self)@ == (PublicationView {
                stage: next_publish(old(self)@.stage, event@),
                ..old(self)@
            }),
    {
        self.stage = publish_with_retry(self.stage, event);
    }

    /// Whether it was published, or failed; `None` while it is not over.
    pub fn outcome(&self) -> (r: Option<Result<bool, ()>>)
        ensures
            r == match self@.stage {
                PublishStage::Done(result) => Some(result),
                _ => None,
            },
    {
        match self.stage {
            PublishStage::Done(result) => Some(result),
            _ => None,
        }
    }
}

/// The stage after a row of events.
pub open spec fn publish_after(events: Seq<PublishEventView>) -> PublishStage
    decreases events.len(),
{
    if events.len() == 0 {
        PublishStage::Trying(1)
    } else {
        next_publish(publish_after(events.drop_last()), events.last())
    }
}

/// How many tries were refused for want of peers, over a row of events.
pub open spec fn lonely_tries(events: Seq<PublishEventView>) -> nat
    decreases events.len(),
{
    if events.len() == 0 {
        0
    } else {
        let before = lonely_tries(events.drop_last());
        match (publish_after(events.drop_last()), events.last()) {
            (
                PublishStage::Trying(_),
                PublishEventView::Refused(refusal),
            ) if lacks_peers(refusal) => before + 1,
            _ => before,
        }
    }
}

/// Whatever happens: no more tries are made than allowed, all but the last refused for want of
/// peers; it is given up only after the last try was refused so; and it counts as published only
/// if a try went well.
pub proof fn law_publishing_is_bounded(events: Seq<PublishEventView>)
    ensures
        match publish_after(events) {
            PublishStage::Trying(attempt) => 1 <= attempt <= MAX_ATTEMPTS && lonely_tries(events)
                == attempt - 1,
            PublishStage::Pausing(attempt) => 1 <= attempt <= MAX_ATTEMPTS && lonely_tries(events)
                == attempt,
            PublishStage::Done(Ok(published)) => {
                &&& published ==> lonely_tries(events) < MAX_ATTEMPTS && exists|i: int|
                    0 <= i < events.len() && #[trigger] events[i] is Published
                &&& !published ==> lonely_tries(events) == MAX_ATTEMPTS
            },
            PublishStage::Done(Err(_)) => lonely_tries(events) < MAX_ATTEMPTS,
        },
    decreases events.len(),
{
    if events.len() > 0 {
        let less = events.drop_last();
        law_publishing_is_bounded(less);
        let last = events.len() - 1;
        if publish_after(events) == PublishStage::Done(Ok(true)) {
            if publish_after(less) == PublishStage::Done(Ok(true)) {
                let i = choose|i: int| 0 <= i < less.len() && #[trigger] less[i] is Published;
                assert(events[i] is Published);
            } else {
                assert(events[last] is Published);
            }
        }
    }
}

/// What an action, an event and an identity on the topic say, told from what they hold, and the
/// topic's own names and numbers.
pub proof fn law_topic_views(
    limit: usize,
    tx_hex: String,
    txid: String,
    tor_only: bool,
    relay: bool,
    refusal: String,
    id: Txid,
    digest: [u8; 32],
)
    ensures
        (TopicAction::ListMempool { limit })@ == (TopicActionView::ListMempool {
            limit: limit as nat,
        }),
        (TopicAction::Blast { tx_hex, tor_only, relay })@ == (TopicActionView::Blast {
            tx_hex: tx_hex@,
            tor_only,
            relay,
        }),
        (TopicAction::Report { txid, tor_only })@ == (TopicActionView::Report {
            txid: txid@,
            tor_only,
        }),
        TopicAction::Finish@ == TopicActionView::Finish,
        PublishEvent::Published@ == PublishEventView::Published,
        PublishEvent::Refused(refusal)@ == PublishEventView::Refused(refusal@),
        PublishEvent::Slept@ == PublishEventView::Slept,
        Identity::Transaction(id)@ == IdentityView::Transaction(id),
        Identity::Digest(digest)@ == IdentityView::Digest(digest@),
        BITCOIN_PIGEON_TOPIC@ == "bitcoin-pigeon"@,
        LISTEN_ADDRESS@ == "/ip4/0.0.0.0/tcp/0"@,
        PUBLISH_QUEUE_LEN == 64,
        LOCAL_MEMPOOL_LIMIT == 5,
        MAX_ATTEMPTS == 30,
{
}

/// A message with a transaction is known and shown by that transaction's id, last byte first, whatever
/// the topic; one without is known by the topic, a colon and the digest, and shown in full.
pub proof fn law_message_is_known_by(data: Seq<u8>, topic_name: Seq<char>)
    ensures
        match tx::leading_transaction(data) {
            Some(raw) => {
                let shown = hexcode::hex_text(tx::computed_txid(raw).bytes@.reverse());
                &&& identity_text(identity(data), topic_name) == shown
                &&& label_text(data) == shown
            },
            None => {
                &&& identity_text(identity(data), topic_name) == topic_name + ":"@
                    + hexcode::hex_text(onion::sha3_256_digest(data))
                &&& label_text(data) == hexcode::hex_text(data)
            },
        },
{
}

/// A message that is to be sent on: if its transaction came before there is nothing to do. If not, up
/// to 5 ids of the local memory pool are listed, and then the whole message is sent to the peers, in
/// the mode that was asked for and with the wish for announcements; then it is dealt with. A step that
/// fails ends it with its own error.
pub proof fn law_handled_message_is_sent_on(
    txid: Txid,
    data: Seq<u8>,
    tor_only: bool,
    known: Set<Txid>,
)
    ensures
        ({
            let purpose = Purpose::Handle;
            let task = task_of(txid, data, tor_only, purpose, known);
            let listed = TaskView {
                stage: next_task_stage(purpose, task.stage, TopicEvent::Done),
                ..task
            };
            let sent = TaskView {
                stage: next_task_stage(purpose, listed.stage, TopicEvent::Done),
                ..listed
            };
            &&& task.txid == txid
            &&& known.contains(txid) ==> task.stage == TaskStage::Done(Ok(()))
            &&& !known.contains(txid) ==> {
                &&& task_action(task) == (TopicActionView::ListMempool { limit: 5 })
                &&& next_task_stage(purpose, task.stage, TopicEvent::Failed) == TaskStage::Done(
                    Err(TopicError::Mempool),
                )
                &&& task_action(listed) == (TopicActionView::Blast {
                    tx_hex: hexcode::hex_text(data),
                    tor_only,
                    relay: true,
                })
                &&& next_task_stage(purpose, listed.stage, TopicEvent::Failed) == TaskStage::Done(
                    Err(TopicError::Blast),
                )
                &&& sent.stage == TaskStage::Done(Ok(()))
            }
            &&& forall|result: Result<(), TopicError>, event: TopicEvent|
                #![trigger next_task_stage(purpose, TaskStage::Done(result), event)]
                {
                    let over = TaskView { stage: TaskStage::Done(result), ..task };
                    &&& task_action(over) is Finish
                    &&& next_task_stage(purpose, over.stage, event) == over.stage
                }
        }),
{
}

/// A message that is only watched: if its transaction came before there is nothing to do. If not, the
/// local memory pool is listed where that is wanted, and then the transaction is reported by its id,
/// with the mode, where that is wanted; then it is dealt with.
pub proof fn law_watched_message_is_reported(
    txid: Txid,
    data: Seq<u8>,
    tor_only: bool,
    local: bool,
    remote: bool,
    known: Set<Txid>,
    event: TopicEvent,
)
    ensures
        ({
            let purpose = Purpose::Observe { local, remote };
            let task = task_of(txid, data, tor_only, purpose, known);
            let report = TopicActionView::Report {
                txid: hexcode::hex_text(txid.bytes@.reverse()),
                tor_only,
            };
            let listed = TaskView {
                stage: next_task_stage(purpose, task.stage, TopicEvent::Done),
                ..task
            };
            &&& task.txid == txid
            &&& known.contains(txid) ==> task.stage == TaskStage::Done(Ok(()))
            &&& !known.contains(txid) && local ==> {
                &&& task_action(task) == (TopicActionView::ListMempool { limit: 5 })
                &&& next_task_stage(purpose, task.stage, TopicEvent::Failed) == TaskStage::Done(
                    Err(TopicError::Mempool),
                )
                &&& remote ==> task_action(listed) == report && next_task_stage(
                    purpose,
                    listed.stage,
                    event,
                ) == TaskStage::Done(Ok(()))
                &&& !remote ==> listed.stage == TaskStage::Done(Ok(()))
            }
            &&& !known.contains(txid) && !local && remote ==> task_action(task) == report
                && next_task_stage(purpose, task.stage, event) == TaskStage::Done(Ok(()))
            &&& !known.contains(txid) && !local && !remote ==> task.stage == TaskStage::Done(Ok(()))
            &&& forall|result: Result<(), TopicError>|
                #![trigger next_task_stage(purpose, TaskStage::Done(result), event)]
                {
                    let over = TaskView { stage: TaskStage::Done(result), ..task };
                    &&& task_action(over) is Finish
                    &&& next_task_stage(purpose, over.stage, event) == over.stage
                }
        }),
{
}

/// How a publication goes on: a try that went well ends it; one that was refused with a text in which
/// `InsufficientPeers` stands is followed by a pause of a second and, before the 30th, by another
/// try; any other refusal fails it. Everything that is no answer changes nothing.
pub proof fn law_publication_steps(attempt: u64, event: PublishEventView, result: Result<bool, ()>)
    ensures
        publish_action(PublishStage::Trying(attempt)) == PublishAction::Publish,
        publish_action(PublishStage::Pausing(attempt)) == PublishAction::Sleep(1),
        publish_action(PublishStage::Done(result)) == PublishAction::Finish,
        ({
            let n = next_publish(PublishStage::Trying(attempt), event);
            match event {
                PublishEventView::Published => n == PublishStage::Done(Ok(true)),
                PublishEventView::Refused(text) => {
                    let alone = exists|a: Seq<char>, b: Seq<char>|
                        text == #[trigger] (a + "InsufficientPeers"@ + b);
                    &&& alone ==> n == PublishStage::Pausing(attempt)
                    &&& !alone ==> n == PublishStage::Done(Err(()))
                },
                PublishEventView::Slept => n == PublishStage::Trying(attempt),
            }
        }),
        ({
            let n = next_publish(PublishStage::Pausing(attempt), event);
            &&& event is Slept && attempt < 30 ==> n == PublishStage::Trying((attempt + 1) as u64)
            &&& event is Slept && attempt >= 30 ==> n == PublishStage::Done(Ok(false))
            &&& !(event is Slept) ==> n == PublishStage::Pausing(attempt)
        }),
        next_publish(PublishStage::Done(result), event) == PublishStage::Done(result),
{
    if let PublishEventView::Refused(refusal) = event {
        text::law_occurs(refusal, "InsufficientPeers"@);
    }
}

/// What comes of the wish to publish a text: the bytes that it spells are published, all of them, from
/// the first try on, if they start with a transaction, under that transaction's id; a text that is not
/// hexadecimal, or bytes without a transaction, are refused for just that.
pub proof fn law_publishes(tx_hex: Seq<char>, p: PublicationView, error: hexcode::HexError)
    ensures
        ({
            let spelled = utf8::encode_utf8(tx_hex);
            let bytes = hexcode::hex_bytes(spelled);
            &&& publishes(tx_hex, Ok(p)) <==> hexcode::is_hex(spelled) && p.raw == bytes && p.stage
                == PublishStage::Trying(1) && (tx::leading_transaction(bytes) matches Some(raw)
                && p.txid == tx::computed_txid(raw))
            &&& publishes(tx_hex, Err(TxError::Hex(error))) ==> !hexcode::is_hex(spelled)
            &&& publishes(tx_hex, Err(TxError::Decode)) <==> hexcode::is_hex(spelled)
                && tx::leading_transaction(bytes) is None
        }),
{
    if let hexcode::HexError::InvalidHexCharacter { index, .. } = error {
        let spelled = utf8::encode_utf8(tx_hex);
        if hexcode::hex_refused(spelled, error) && hexcode::is_hex(spelled) {
            assert(hexcode::digit_value(spelled[index as int]) is Some);
        }
    }
}

/// What is done about a message at each stage, and how each stage answers every event, whatever the
/// message, the mode and the purpose.
pub proof fn law_task_steps(task: TaskView, event: TopicEvent)
    ensures
        ({
            let n = next_task_stage(task.purpose, task.stage, event);
            match task.stage {
                TaskStage::Listing => {
                    &&& task_action(task) == (TopicActionView::ListMempool { limit: 5 })
                    &&& event is Failed ==> n == TaskStage::Done(Err(TopicError::Mempool))
                    &&& event is Done ==> match task.purpose {
                        Purpose::Handle => n == TaskStage::Blasting,
                        Purpose::Observe { local, remote } => {
                            &&& remote ==> n == TaskStage::Reporting
                            &&& !remote ==> n == TaskStage::Done(Ok(()))
                        },
                    }
                },
                TaskStage::Blasting => {
                    &&& task_action(task) == (TopicActionView::Blast {
                        tx_hex: task.tx_hex,
                        tor_only: task.tor_only,
                        relay: true,
                    })
                    &&& event is Failed ==> n == TaskStage::Done(Err(TopicError::Blast))
                    &&& event is Done ==> n == TaskStage::Done(Ok(()))
                },
                TaskStage::Reporting => {
                    &&& task_action(task) == (TopicActionView::Report {
                        txid: hexcode::hex_text(task.txid.bytes@.reverse()),
                        tor_only: task.tor_only,
                    })
                    &&& n == TaskStage::Done(Ok(()))
                },
                TaskStage::Done(_) => task_action(task) is Finish && n == task.stage,
            }
        }),
{
}

} // verus!
